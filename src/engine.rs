//! The calling convention and the promise builtins: `call` and `construct`,
//! the three execution disciplines, the resolving functions, capabilities,
//! `then`, `catch`, `finally`, and the job loop.
use vstd::prelude::*;
use crate::agent::{Agent, Job, is_error_with, props_same, lemma_props_same_trans, lemma_error_kept, lemma_agent_evolves_refl, lemma_agent_evolves_trans};
use crate::key::ObjectKey;
use crate::object::{Capability, Discipline, FunctionInfo, NativeFn, ObjectKind, PromiseState, Reaction, ReactionKind};
use crate::ops::is_callable;
use crate::promise::{jobs_for, then_outcome, create_resolving_functions, fire_guard, is_pending, is_promise, perform_then, promise_in, promise_result, reject_promise, fulfill_promise};
use crate::text::join2;
use crate::value::{ObjRef, Value};

verus! {

broadcast use {lemma_agent_evolves_trans, lemma_agent_evolves_refl};

/// How far calls may nest before a call fails with a range error.
pub const MAX_DEPTH: usize = 512;

/// How a body run by the interpreter ended, or where it stopped.
#[derive(Debug)]
pub enum Completion {
    Return(Value),
    Throw(Value),
    /// Stopped at `yield` or `await`: the continuation to resume, and the
    /// value it carries.
    Suspend(usize, Value),
    /// The body asks the engine to carry out an operation; the
    /// continuation is resumed with its outcome.
    Request(usize, Operation),
}

/// What a compiled body or an embedder's native asks the engine to do.
#[derive(Debug)]
pub enum Operation {
    Call { function: Value, this: Value, arguments: Vec<Value> },
    Construct { function: Value, arguments: Vec<Value>, new_target: Value },
    Get { base: Value, key: ObjectKey },
    Put { base: Value, key: ObjectKey, value: Value },
    NewObject { prototype: Value },
    GetSlot { base: Value, name: String },
    SetSlot { base: Value, name: String, value: Value },
    /// A capability from `constructor`, handed back as a tuple of the
    /// promise, its resolve function and its reject function.
    NewPromiseCapability { constructor: Value },
}

/// What the interpreter gets to run a compiled body: the function, where
/// its body starts, its captured scope, `this` (none for arrow functions)
/// and the parameters bound to the arguments, missing ones to `Null`.
#[derive(Debug)]
pub struct Frame {
    pub function: ObjRef,
    pub position: usize,
    pub scope: usize,
    pub this: Option<Value>,
    pub bindings: Vec<(String, Value)>,
}

/// The interpreter and the embedder's native functions, as the engine sees
/// them. They read the agent, and change it only by handing the engine
/// `Operation`s through `Completion::Request`; the engine makes no
/// assumption about what they return.
pub trait Interpreter {
    /// Run a body from its start until it completes or suspends.
    fn run(&mut self, agent: &Agent, frame: Frame) -> Completion;

    /// A continuation positioned at the start of a body, not yet run.
    fn start_suspended(&mut self, agent: &Agent, frame: Frame) -> usize;

    /// Resume a suspended continuation with a value, or with a value to
    /// throw at the suspension point.
    fn resume(&mut self, agent: &Agent, continuation: usize, input: Result<Value, Value>) -> Completion;

    /// Call the embedder's native function `id`.
    fn call_native(&mut self, agent: &Agent, id: u64, this: Value, arguments: Vec<Value>) -> Completion;
}

impl Value {
    /// Call this value as a function with `this` and `args`.
    pub fn call<I: Interpreter>(&self, agent: &mut Agent, host: &mut I, this: Value, args: Vec<Value>) -> (r: Result<Value, Value>)
        requires
            old(agent).wf(),
        ensures
            step(&*old(agent), &*final(agent)),
            call_contract(&*old(agent), &*final(agent), *self, this, args@, MAX_DEPTH, r),
    {
        call_at(agent, host, self, this, args, MAX_DEPTH)
    }

    /// Construct with this value as the constructor.
    pub fn construct<I: Interpreter>(&self, agent: &mut Agent, host: &mut I, args: Vec<Value>, new_target: Value) -> (r: Result<Value, Value>)
        requires
            old(agent).wf(),
        ensures
            step(&*old(agent), &*final(agent)),
            !is_callable(&*old(agent), *self) ==> r is Err && is_error_with(&*final(agent), r->Err_0, "value is not a function"@),
            is_callable(&*old(agent), *self) && !constructible(old(agent).heap.kind(self->Object_0)) ==> r is Err
                && is_error_with(&*final(agent), r->Err_0, "value is not a constructor"@),
            r is Ok ==> r->Ok_0 is Object && final(agent).heap.valid(r->Ok_0->Object_0),
            is_callable(&*old(agent), *self) && constructible(old(agent).heap.kind(self->Object_0))
                && new_target is Object && old(agent).heap.valid(new_target->Object_0) ==> exists|m: Agent, t: ObjRef|
                #[trigger] fresh_this(&*old(agent), m, new_target, t) && m.wf() && old(agent).evolves_to(&m),
            *self == Value::Object(old(agent).intrinsics.promise) && new_target is Object
                && old(agent).heap.valid(new_target->Object_0) && is_callable(&*old(agent), nth_or_null(args@, 0)) ==> r is Ok,
    {
        construct_at(agent, host, self, args, &new_target, MAX_DEPTH)
    }

    /// An iterator result object: `value` and `done`.
    pub fn new_iter_result(agent: &mut Agent, value: Value, done: bool) -> (r: Result<Value, Value>)
        requires
            old(agent).wf(),
        ensures
            step(&*old(agent), &*final(agent)),
            r matches Ok(o) ==> o is Object,
            r is Ok,
            ({
                let o = ObjRef(old(agent).heap.len() as usize);
                &&& r == Ok::<Value, Value>(Value::Object(o))
                &&& final(agent).heap.lookup_m(o, crate::key::KeyModel::Text("value"@)) == value
                &&& final(agent).heap.lookup_m(o, crate::key::KeyModel::Text("done"@)) == (if done { Value::True } else { Value::False })
            }),
    {
        let proto = Value::Object(agent.intrinsics.object_prototype);
        let o = Value::new_object(agent, proto);
        let r = match &o {
            Value::Object(r) => *r,
            _ => ObjRef(0),
        };
        let kv = key("value");
        let kd = key("done");
        agent.put(r, &kv, value);
        let ghost mid2 = *agent;
        agent.put(r, &kd, Value::from_bool(done));
        proof {
            assert(kv.model() != kd.model()) by {
                reveal_strlit("value");
                reveal_strlit("done");
                assert(kv.model()->Text_0.len() != kd.model()->Text_0.len());
            }
            assert(agent.heap.own(r, kv) == mid2.heap.own(r, kv));
            crate::object::lemma_own_is_found(&agent.heap, r, kv.model());
        }
        Ok(o)
    }
}

/// Argument `i`, or `Null` when there are fewer arguments.
pub fn arg(args: &Vec<Value>, i: usize) -> (r: Value)
    ensures
        r == (if i < args@.len() { args@[i as int] } else { Value::Null }),
{
    if i < args.len() {
        args[i].duplicate()
    } else {
        Value::Null
    }
}

/// The common part of every engine step: the agent stays well formed and
/// changes only as `evolves_to` allows.
pub open spec fn step(a: &Agent, b: &Agent) -> bool {
    b.wf() && a.evolves_to(b)
}

fn key(s: &str) -> (k: ObjectKey)
    ensures
        k matches ObjectKey::String(t) && t@ == s@,
{
    ObjectKey::String(s.to_owned())
}

/// What calling `f` with `this` and `args` at nesting budget `depth`
/// does, as far as the engine decides it: the library's own errors, and for
/// a native function (with `this` an object or `Null`, which need no boxing)
/// the native's effect.
pub open spec fn call_contract(a: &Agent, b: &Agent, f: Value, this: Value, args: Seq<Value>, depth: usize, r: Result<Value, Value>) -> bool {
    &&& (!is_callable(a, f) ==> r is Err && is_error_with(b, r->Err_0, "value is not a function"@)
            && only_allocated(a, b))
    &&& (is_callable(a, f) && depth == 0 ==> r is Err
            && is_error_with(b, r->Err_0, "maximum call depth exceeded"@) && only_allocated(a, b))
    &&& (is_callable(a, f) && depth > 0 && a.heap.kind(f->Object_0) is BuiltinFunction
            && (this is Null || this is Object) ==> native_effect(a, b, f->Object_0,
            a.heap.kind(f->Object_0)->BuiltinFunction_0, this, args, (depth - 1) as usize, r))
    &&& (is_callable(a, f) && depth > 0 && !(this is Null || this is Object || this is Tuple || this is True
            || this is False || this is Number || this is String)
            && !(a.heap.kind(f->Object_0) is BytecodeFunction && a.heap.kind(f->Object_0)->BytecodeFunction_0.arrow)
            ==> r is Err && is_error_with(b, r->Err_0, "cannot convert to object"@))
}

/// Call `f` with `this` and `args`.
pub fn call_at<I: Interpreter>(
    agent: &mut Agent,
    host: &mut I,
    f: &Value,
    this: Value,
    args: Vec<Value>,
    depth: usize,
) -> (r: Result<Value, Value>)
    requires
        old(agent).wf(),
    ensures
        step(&*old(agent), &*final(agent)),
        call_contract(&*old(agent), &*final(agent), *f, this, args@, depth, r),
    decreases depth, 2nat,
{
    if !f.is_callable(agent) {
        return Err(agent.new_error("value is not a function"));
    }
    if depth == 0 {
        return Err(agent.new_error("maximum call depth exceeded"));
    }
    let fr = match f {
        Value::Object(fr) => *fr,
        _ => {
            return Err(agent.new_error("value is not a function"));
        },
    };
    let arrow = match agent.heap.kind_of(fr) {
        ObjectKind::BytecodeFunction(info) => Some(info.arrow),
        _ => None,
    };
    match arrow {
        Some(is_arrow) => {
            let this_binding = bind_this(agent, is_arrow, this)?;
            evaluate_body(agent, host, fr, this_binding, args, depth - 1)
        },
        None => {
            let native = match agent.heap.kind_of(fr) {
                ObjectKind::BuiltinFunction(n, _) => n.duplicate(),
                _ => NativeFn::ReturnThis,
            };
            let this_binding = match bind_this(agent, false, this)? {
                Some(t) => t,
                None => Value::Null,
            };
            call_native(agent, host, fr, native, this_binding, args, depth - 1)
        },
    }
}

/// Construct with `f`: a new object whose prototype is `new_target`'s
/// `prototype` property (the object prototype when that is not an object)
/// is `this`; an object that the body returns replaces it.
pub fn construct_at<I: Interpreter>(
    agent: &mut Agent,
    host: &mut I,
    f: &Value,
    args: Vec<Value>,
    new_target: &Value,
    depth: usize,
) -> (r: Result<Value, Value>)
    requires
        old(agent).wf(),
    ensures
        step(&*old(agent), &*final(agent)),
        !is_callable(&*old(agent), *f) ==> r is Err && is_error_with(&*final(agent), r->Err_0, "value is not a function"@),
        is_callable(&*old(agent), *f) && depth == 0 ==> r is Err
            && is_error_with(&*final(agent), r->Err_0, "maximum call depth exceeded"@),
        is_callable(&*old(agent), *f) && depth > 0 && !constructible(old(agent).heap.kind(f->Object_0)) ==> r is Err
            && is_error_with(&*final(agent), r->Err_0, "value is not a constructor"@),
        r is Ok ==> r->Ok_0 is Object && final(agent).heap.valid(r->Ok_0->Object_0),
        is_callable(&*old(agent), *f) && depth > 0 && constructible(old(agent).heap.kind(f->Object_0))
            && new_target is Object && old(agent).heap.valid(new_target->Object_0) ==> exists|m: Agent, t: ObjRef|
            #[trigger] fresh_this(&*old(agent), m, *new_target, t) && m.wf() && old(agent).evolves_to(&m),
        *f == Value::Object(old(agent).intrinsics.promise) && depth > 2 && new_target is Object
            && old(agent).heap.valid(new_target->Object_0) && is_callable(&*old(agent), nth_or_null(args@, 0)) ==> r is Ok,
    decreases depth, 2nat,
{
    if !f.is_callable(agent) {
        return Err(agent.new_error("value is not a function"));
    }
    if depth == 0 {
        return Err(agent.new_error("maximum call depth exceeded"));
    }
    let fr = match f {
        Value::Object(fr) => *fr,
        _ => {
            return Err(agent.new_error("value is not a function"));
        },
    };
    let constructible = match agent.heap.kind_of(fr) {
        ObjectKind::BytecodeFunction(info) => Some(info.discipline == Discipline::Normal && !info.arrow),
        _ => None,
    };
    if constructible == Some(false) {
        return Err(agent.new_error("value is not a constructor"));
    }
    let found = new_target.get(agent, &key("prototype"))?;
    let prototype = construct_prototype(agent, found);
    let n = agent.heap.size();
    let this = Value::new_object(agent, prototype);
    let ghost m = *agent;
    proof {
        assert(this == Value::Object(ObjRef(n)));
        if new_target is Object && old(agent).heap.valid(new_target->Object_0) {
            assert(fresh_this(&*old(agent), m, *new_target, ObjRef(n)));
        }
    }
    let result = match constructible {
        Some(_) => evaluate_body(agent, host, fr, Some(this.duplicate()), args, depth - 1)?,
        None => {
            let native = match agent.heap.kind_of(fr) {
                ObjectKind::BuiltinFunction(n, _) => n.duplicate(),
                _ => NativeFn::ReturnThis,
            };
            call_native(agent, host, fr, native, this.duplicate(), args, depth - 1)?
        },
    };
    Ok(construct_result(agent, result, this))
}

/// The object `construct` made for `this`: new, ordinary, and with the
/// prototype the new target's `prototype` property names when that is an
/// object (functions included), else the object prototype.
pub open spec fn fresh_this(a: &Agent, m: Agent, new_target: Value, t: ObjRef) -> bool {
    let found = a.heap.lookup_m(new_target->Object_0, crate::key::KeyModel::Text("prototype"@));
    &&& t.0 >= a.heap.len()
    &&& m.heap.valid(t)
    &&& m.heap.kind(t) == ObjectKind::Ordinary
    &&& m.heap.object(t).proto() == (if found is Object && a.heap.valid(found->Object_0) { found } else {
        Value::Object(a.intrinsics.object_prototype) })
}

/// Whether a function kind may be constructed: a native function, or a
/// compiled normal function that is not an arrow.
pub open spec fn constructible(k: ObjectKind) -> bool {
    match k {
        ObjectKind::BytecodeFunction(info) => info.discipline == Discipline::Normal && !info.arrow,
        _ => true,
    }
}

/// The prototype of the object `construct` makes: the `prototype` property
/// found on the new target when it is an object (functions included), else
/// the object prototype.
pub fn construct_prototype(agent: &Agent, found: Value) -> (p: Value)
    requires
        agent.wf(),
    ensures
        p == (if found is Object && agent.heap.valid(found->Object_0) { found } else {
            Value::Object(agent.intrinsics.object_prototype) }),
        p is Object && agent.heap.valid(p->Object_0),
{
    match &found {
        Value::Object(o) => {
            if agent.heap.is_valid(*o) {
                return found;
            }
        },
        _ => {},
    }
    Value::Object(agent.intrinsics.object_prototype)
}

/// The value `construct` returns: what the body returned when that is an
/// object (functions included), else the fresh `this`.
pub fn construct_result(agent: &Agent, result: Value, this: Value) -> (r: Value)
    ensures
        r == (if result is Object && agent.heap.valid(result->Object_0) { result } else { this }),
{
    match &result {
        Value::Object(o) => {
            if agent.heap.is_valid(*o) {
                return result;
            }
        },
        _ => {},
    }
    this
}

/// The `this` a call binds: none for an arrow function, `Null` for `Null`,
/// an object or a tuple as it is, and otherwise the value boxed into a new
/// object; symbols and internal values cannot be boxed.
pub fn bind_this(agent: &mut Agent, arrow: bool, this: Value) -> (r: Result<Option<Value>, Value>)
    requires
        old(agent).wf(),
    ensures
        step(&*old(agent), &*final(agent)),
        arrow ==> r == Ok::<Option<Value>, Value>(None) && *final(agent) == *old(agent),
        !arrow && (this is Null || this is Object || this is Tuple) ==> r == Ok::<Option<Value>, Value>(Some(this))
            && *final(agent) == *old(agent),
        !arrow && (this is True || this is False || this is Number || this is String) ==> r is Ok && r->Ok_0 is Some
            && r->Ok_0->Some_0 == Value::Object(ObjRef(old(agent).heap.len() as usize))
            && final(agent).heap.object(ObjRef(old(agent).heap.len() as usize)).proto() == Value::Object(
                crate::ops::primitive_proto(&*old(agent), this)->Some_0),
        !arrow && !(this is Null || this is Object || this is Tuple || this is True || this is False || this is Number
            || this is String) ==> r is Err && is_error_with(&*final(agent), r->Err_0, "cannot convert to object"@),
{
    if arrow {
        return Ok(None);
    }
    if this.is_null() {
        return Ok(Some(Value::Null));
    }
    match this.to_object(agent) {
        Ok(o) => Ok(Some(o)),
        Err(e) => Err(e),
    }
}

/// The frame for compiled function `fr`: its body's position and scope,
/// `this` as bound, and parameter `i` bound to argument `i`, or to `Null`
/// when there are fewer arguments.
pub fn build_frame(info: &FunctionInfo, fr: ObjRef, this: Option<Value>, args: &Vec<Value>) -> (f: Frame)
    ensures
        f.function == fr,
        f.position == info.position,
        f.scope == info.scope,
        f.this == this,
        f.bindings@.len() == info.parameters@.len(),
        forall|i: int| 0 <= i < info.parameters@.len() ==> (#[trigger] f.bindings@[i]).0@ == info.parameters@[i]@
            && f.bindings@[i].1 == (if i < args@.len() { args@[i] } else { Value::Null }),
{
    let mut bindings: Vec<(String, Value)> = Vec::new();
    let mut i: usize = 0;
    while i < info.parameters.len()
        invariant
            i <= info.parameters@.len(),
            bindings@.len() == i,
            forall|j: int| 0 <= j < i ==> (#[trigger] bindings@[j]).0@ == info.parameters@[j]@
                && bindings@[j].1 == (if j < args@.len() { args@[j] } else { Value::Null }),
        decreases info.parameters@.len() - i,
    {
        bindings.push((info.parameters[i].clone(), arg(args, i)));
        i = i + 1;
    }
    Frame { function: fr, position: info.position, scope: info.scope, this, bindings }
}

/// How a normal body's completion becomes the call's result: a return
/// gives its value, a throw its value as the error; a normal body cannot
/// suspend.
pub fn normal_outcome(agent: &mut Agent, completion: Completion) -> (r: Result<Value, Value>)
    requires
        old(agent).wf(),
    ensures
        step(&*old(agent), &*final(agent)),
        completion matches Completion::Return(v) ==> r == Ok::<Value, Value>(v) && *final(agent) == *old(agent),
        completion matches Completion::Throw(e) ==> r == Err::<Value, Value>(e) && *final(agent) == *old(agent),
        completion is Suspend ==> r is Err && is_error_with(&*final(agent), r->Err_0, "a normal function cannot suspend"@),
        completion is Request ==> r is Err && is_error_with(&*final(agent), r->Err_0, "a request was left unanswered"@),
{
    match completion {
        Completion::Return(v) => Ok(v),
        Completion::Throw(e) => Err(e),
        Completion::Suspend(_, _) => Err(agent.new_error("a normal function cannot suspend")),
        Completion::Request(_, _) => Err(agent.new_error("a request was left unanswered")),
    }
}

/// A generator object: a new slot-carrying object whose prototype is the
/// generator prototype and whose `generator context` slot holds the
/// suspended continuation.
pub open spec fn is_generator_object(a: &Agent, v: Value) -> bool {
    &&& v is Object && a.heap.valid(v->Object_0)
    &&& a.heap.kind(v->Object_0) is Custom
    &&& a.heap.object(v->Object_0).proto() == Value::Object(a.intrinsics.generator_prototype)
    &&& crate::ops::slot_of(a, v, "generator context"@) matches Some(c) && c is WrappedContinuation
        && c->WrappedContinuation_1 is None
}

/// Make the generator object for a body suspended at its start.
pub fn make_generator(agent: &mut Agent, continuation: usize) -> (o: Value)
    requires
        old(agent).wf(),
    ensures
        step(&*old(agent), &*final(agent)),
        is_generator_object(&*final(agent), o),
        crate::ops::slot_of(&*final(agent), o, "generator context"@) == Some(Value::WrappedContinuation(continuation, None)),
{
    let proto = Value::Object(agent.intrinsics.generator_prototype);
    let o = Value::new_custom_object(agent, proto);
    let ghost mid = *agent;
    o.set_slot(agent, "generator context", Value::WrappedContinuation(continuation, None));
    proof {
        let r = o->Object_0;
        assert(mid.heap.valid(r));
        assert(agent.heap.object(r).entries() == mid.heap.object(r).entries());
        assert(agent.heap.object(r).proto() == mid.heap.object(r).proto());
        assert(mid.heap.kind(r) is Custom);
    }
    o
}

/// Run the body of compiled function `fr` by its discipline: a normal body
/// runs to completion; a generator body does not start, and the generator
/// object holds its continuation; an async body starts at once and the call
/// returns its promise, settled already if the body completed.
pub fn evaluate_body<I: Interpreter>(
    agent: &mut Agent,
    host: &mut I,
    fr: ObjRef,
    this: Option<Value>,
    args: Vec<Value>,
    depth: usize,
) -> (r: Result<Value, Value>)
    requires
        old(agent).wf(),
    ensures
        step(&*old(agent), &*final(agent)),
        !(old(agent).heap.valid(fr) && old(agent).heap.kind(fr) is BytecodeFunction) ==> r is Err
            && is_error_with(&*final(agent), r->Err_0, "value is not a function"@),
        old(agent).heap.valid(fr) && old(agent).heap.kind(fr) is BytecodeFunction
            && old(agent).heap.kind(fr)->BytecodeFunction_0.discipline == Discipline::Generator ==> r is Ok
            && is_generator_object(&*final(agent), r->Ok_0),
        old(agent).heap.valid(fr) && old(agent).heap.kind(fr) is BytecodeFunction
            && old(agent).heap.kind(fr)->BytecodeFunction_0.discipline == Discipline::Async && r is Ok ==> r->Ok_0 is Object
            && r->Ok_0->Object_0.0 >= old(agent).heap.len() && final(agent).heap.valid(r->Ok_0->Object_0)
            && final(agent).heap.kind(r->Ok_0->Object_0) is Promise,
    decreases depth, 1nat,
{
    if !agent.heap.is_valid(fr) {
        return Err(agent.new_error("value is not a function"));
    }
    let (frame, discipline) = match agent.heap.kind_of(fr) {
        ObjectKind::BytecodeFunction(info) => (build_frame(info, fr, this, &args), info.discipline),
        _ => {
            return Err(agent.new_error("value is not a function"));
        },
    };
    match discipline {
        Discipline::Normal => {
            let first = host.run(agent, frame);
            let completion = drive(agent, host, first, depth);
            normal_outcome(agent, completion)
        },
        Discipline::Generator => {
            let continuation = host.start_suspended(agent, frame);
            Ok(make_generator(agent, continuation))
        },
        Discipline::Async => {
            let promise_ctor = Value::Object(agent.intrinsics.promise);
            let capability = new_promise_capability(agent, host, &promise_ctor, depth)?;
            let first = host.run(agent, frame);
            let completion = drive(agent, host, first, depth);
            drive_async(agent, host, completion, &capability.resolve, &capability.reject, depth)?;
            Ok(capability.promise)
        },
    }
}

/// Carry an async body on from `completion`: settle its promise through
/// `resolve` or `reject` when it has completed, or await the carried value
/// when it has suspended.
pub fn drive_async<I: Interpreter>(
    agent: &mut Agent,
    host: &mut I,
    completion: Completion,
    resolve: &Value,
    reject: &Value,
    depth: usize,
) -> (r: Result<Value, Value>)
    requires
        old(agent).wf(),
    ensures
        step(&*old(agent), &*final(agent)),
        depth == 0 ==> r is Err && is_error_with(&*final(agent), r->Err_0, "maximum call depth exceeded"@),
        depth > 0 && completion is Return ==> call_contract(&*old(agent), &*final(agent), *resolve, Value::Null,
            seq![completion->Return_0], (depth - 1) as usize, r),
        depth > 0 && completion is Throw ==> call_contract(&*old(agent), &*final(agent), *reject, Value::Null,
            seq![completion->Throw_0], (depth - 1) as usize, r),
    decreases depth, 0nat,
{
    if depth == 0 {
        return Err(agent.new_error("maximum call depth exceeded"));
    }
    match completion {
        Completion::Return(v) => {
            let ghost gv = v;
            let args = vec![v];
            assert(args@ =~= seq![gv]);
            call_at(agent, host, resolve, Value::Null, args, depth - 1)
        },
        Completion::Throw(e) => {
            let ghost ge = e;
            let args = vec![e];
            assert(args@ =~= seq![ge]);
            call_at(agent, host, reject, Value::Null, args, depth - 1)
        },
        Completion::Suspend(continuation, value) => perform_await(agent, host, continuation, resolve, reject, value, depth - 1),
        Completion::Request(_, _) => Err(agent.new_error("a request was left unanswered")),
    }
}

/// Answer a body's requests until it completes or suspends: each
/// operation is carried out by the engine and the body resumed with its
/// outcome.
pub fn drive<I: Interpreter>(agent: &mut Agent, host: &mut I, completion: Completion, depth: usize) -> (c: Completion)
    requires
        old(agent).wf(),
    ensures
        step(&*old(agent), &*final(agent)),
        !(c is Request),
        !(completion is Request) ==> c == completion && *final(agent) == *old(agent),
    decreases depth, 0nat,
{
    let mut c = completion;
    let mut budget: usize = usize::MAX;
    while budget > 0
        invariant
            step(&*old(agent), &*agent),
            !(completion is Request) ==> c == completion && *agent == *old(agent) && budget == usize::MAX,
        decreases budget,
    {
        match c {
            Completion::Request(k, op) => {
                if depth == 0 {
                    return Completion::Throw(agent.new_error("maximum call depth exceeded"));
                }
                let outcome = perform(agent, host, op, depth - 1);
                c = host.resume(agent, k, outcome);
            },
            other => {
                return other;
            },
        }
        budget = budget - 1;
    }
    Completion::Throw(agent.new_error("too many requests"))
}

/// Carry out one operation for a body.
pub fn perform<I: Interpreter>(agent: &mut Agent, host: &mut I, op: Operation, depth: usize) -> (r: Result<Value, Value>)
    requires
        old(agent).wf(),
    ensures
        step(&*old(agent), &*final(agent)),
        op matches Operation::Call { function, this, arguments } ==> call_contract(&*old(agent), &*final(agent),
            function, this, arguments@, depth, r),
        op matches Operation::Construct { function, .. } ==> (!is_callable(&*old(agent), function) ==> r is Err),
        op matches Operation::Get { base, key } ==> ((base is Object && old(agent).heap.valid(base->Object_0)) ==>
            r == Ok::<Value, Value>(old(agent).heap.lookup(base->Object_0, key)) && *final(agent) == *old(agent)),
        op matches Operation::Put { base, key, value } ==> ((base is Object && old(agent).heap.valid(base->Object_0)) ==>
            r == Ok::<Value, Value>(value) && final(agent).heap.own(base->Object_0, key) == Some(value)),
        op matches Operation::NewObject { prototype } ==> ((prototype is Null || (prototype is Object
            && old(agent).heap.valid(prototype->Object_0))) ==> r is Ok && r->Ok_0 is Object
            && final(agent).heap.valid(r->Ok_0->Object_0) && final(agent).heap.object(r->Ok_0->Object_0).proto() == prototype),
        op matches Operation::GetSlot { base, name } ==> (crate::ops::slot_of(&*old(agent), base, name@) matches Some(v)
            ==> r == Ok::<Value, Value>(v) && *final(agent) == *old(agent)),
        op matches Operation::SetSlot { base, name, value } ==> ((base is Object && old(agent).heap.valid(base->Object_0)
            && crate::ops::slots_of(old(agent).heap.kind(base->Object_0)) is Some) ==> r is Ok
            && crate::ops::slot_of(&*final(agent), base, name@) == Some(value)),
        op matches Operation::NewPromiseCapability { constructor } ==> (constructor == Value::Object(old(agent).intrinsics.promise)
            ==> r is Ok && r->Ok_0 is Tuple),
    decreases depth, 10nat,
{
    match op {
        Operation::Call { function, this, arguments } => call_at(agent, host, &function, this, arguments, depth),
        Operation::Construct { function, arguments, new_target } => construct_at(agent, host, &function, arguments, &new_target, depth),
        Operation::Get { base, key } => base.get(agent, &key),
        Operation::Put { base, key, value } => base.set(agent, &key, value),
        Operation::NewObject { prototype } => {
            let ok = match &prototype {
                Value::Null => true,
                Value::Object(p) => agent.heap.is_valid(*p),
                _ => false,
            };
            if ok {
                Ok(Value::new_object(agent, prototype))
            } else {
                Err(agent.new_error("prototype must be an object or null"))
            }
        },
        Operation::GetSlot { base, name } => {
            if base.has_slot(agent, name.as_str()) {
                Ok(base.get_slot(agent, name.as_str()))
            } else {
                Err(agent.new_error("no such slot"))
            }
        },
        Operation::SetSlot { base, name, value } => {
            let ok = match &base {
                Value::Object(o) => {
                    if agent.heap.is_valid(*o) {
                        match agent.heap.kind_of(*o) {
                            ObjectKind::Custom(_) | ObjectKind::BuiltinFunction(_, _) => true,
                            _ => false,
                        }
                    } else {
                        false
                    }
                },
                _ => false,
            };
            if ok {
                base.set_slot(agent, name.as_str(), value);
                Ok(Value::Null)
            } else {
                Err(agent.new_error("value has no slots"))
            }
        },
        Operation::NewPromiseCapability { constructor } => {
            let c = new_promise_capability(agent, host, &constructor, depth)?;
            let items = vec![c.promise, c.resolve, c.reject];
            Ok(Value::new_tuple(agent, items))
        },
    }
}

/// Suspend an async body on `value`: the value is turned into a promise,
/// and when that settles the continuation resumes with the value, or with
/// the reason thrown.
pub fn perform_await<I: Interpreter>(
    agent: &mut Agent,
    host: &mut I,
    continuation: usize,
    resolve: &Value,
    reject: &Value,
    value: Value,
    depth: usize,
) -> (r: Result<Value, Value>)
    requires
        old(agent).wf(),
    ensures
        step(&*old(agent), &*final(agent)),
        depth > 1 && (!(value is Object) || (old(agent).heap.valid(value->Object_0)
            && !(old(agent).heap.kind(value->Object_0) is Promise))) ==> r == Ok::<Value, Value>(Value::Null)
            && exists|m: Agent| #![trigger m.jobs]
                final(agent).jobs@ == m.jobs@.push(Job {
                    reaction: Reaction {
                        kind: ReactionKind::Fulfill,
                        capability: None,
                        handler: final(agent).jobs@.last().reaction.handler,
                    },
                    argument: value,
                }) && final(agent).jobs@.last().reaction.handler is Object
                && final(agent).heap.kind(final(agent).jobs@.last().reaction.handler->Object_0) is BuiltinFunction
                && final(agent).heap.kind(final(agent).jobs@.last().reaction.handler->Object_0)->BuiltinFunction_0
                    == (NativeFn::AwaitFulfilled { continuation, resolve: *resolve, reject: *reject }),
    decreases depth, 3nat,
{
    let promise_ctor = Value::Object(agent.intrinsics.promise);
    let ghost gv = value;
    let awaited = promise_resolve_i(agent, host, &promise_ctor, value, depth)?;
    let ghost after_resolve = *agent;
    let on_fulfilled = Value::new_builtin_function(
        agent,
        NativeFn::AwaitFulfilled { continuation, resolve: resolve.duplicate(), reject: reject.duplicate() },
    );
    let on_rejected = Value::new_builtin_function(
        agent,
        NativeFn::AwaitRejected { continuation, resolve: resolve.duplicate(), reject: reject.duplicate() },
    );
    match awaited {
        Value::Object(p) => {
            if is_promise(agent, &Value::Object(p)) {
                let fulfill = Reaction { kind: ReactionKind::Fulfill, capability: None, handler: on_fulfilled };
                let rejected = Reaction { kind: ReactionKind::Reject, capability: None, handler: on_rejected };
                let ghost f = fulfill;
                let ghost before = *agent;
                perform_then(agent, p, fulfill, rejected);
                proof {
                    if depth > 1 && (!(gv is Object) || (old(agent).heap.valid(gv->Object_0)
                        && !(old(agent).heap.kind(gv->Object_0) is Promise))) {
                        assert(before.heap.kind(p) == after_resolve.heap.kind(p));
                        assert(promise_in(&before, p, PromiseState::Fulfilled));
                        assert(agent.jobs@ == before.jobs@.push(Job { reaction: f, argument: gv }));
                        assert(agent.jobs@.last() == (Job { reaction: f, argument: gv }));
                        let fr = f.handler->Object_0;
                        assert(before.heap.valid(fr));
                        assert(agent.heap.kind(fr) == before.heap.kind(fr));
                        assert(before.jobs == before.jobs);
                    }
                }
                return Ok(Value::Null);
            }
        },
        _ => {},
    }
    Err(agent.new_error("await needs a promise"))
}

/// A capability as the intrinsic `Promise` makes it: a new pending promise
/// with empty queues, and its resolve and reject functions sharing a guard
/// that has not fired.
pub open spec fn fresh_capability(a: &Agent, c: Capability) -> bool {
    &&& c.promise is Object
    &&& promise_in(a, c.promise->Object_0, PromiseState::Pending)
    &&& a.heap.kind(c.promise->Object_0)->Promise_fulfill_reactions@.len() == 0
    &&& a.heap.kind(c.promise->Object_0)->Promise_reject_reactions@.len() == 0
    &&& a.heap.object(c.promise->Object_0).proto() == Value::Object(a.intrinsics.promise_prototype)
    &&& c.resolve is Object && a.heap.valid(c.resolve->Object_0)
    &&& a.heap.kind(c.resolve->Object_0) is BuiltinFunction
    &&& c.reject is Object && a.heap.valid(c.reject->Object_0)
    &&& a.heap.kind(c.reject->Object_0) is BuiltinFunction
    &&& exists|g: ObjRef| #![trigger a.heap.kind(g)]
        a.heap.valid(g) && a.heap.kind(g) == ObjectKind::ResolveGuard(false)
        && a.heap.kind(c.resolve->Object_0)->BuiltinFunction_0 == (NativeFn::ResolveFunction { promise: c.promise->Object_0, guard: g })
        && a.heap.kind(c.reject->Object_0)->BuiltinFunction_0 == (NativeFn::RejectFunction { promise: c.promise->Object_0, guard: g })
}

/// Only new objects appeared: every older object keeps its kind, and the
/// job queue and the reactor are as they were.
pub open spec fn only_allocated(a: &Agent, b: &Agent) -> bool {
    &&& forall|q: ObjRef| a.heap.valid(q) ==> #[trigger] b.heap.kind(q) == a.heap.kind(q)
    &&& b.jobs@ == a.jobs@
    &&& b.reactor == a.reactor
}

/// The capability the intrinsic `Promise` constructor gives: constructing
/// it with a capturing executor makes a pending promise and hands the
/// executor its fresh resolving pair, which it records.
pub fn intrinsic_capability(agent: &mut Agent) -> (c: Capability)
    requires
        old(agent).wf(),
    ensures
        step(&*old(agent), &*final(agent)),
        only_allocated(&*old(agent), &*final(agent)),
        fresh_capability(&*final(agent), c),
        c.promise->Object_0.0 >= old(agent).heap.len(),
{
    let proto = Value::Object(agent.intrinsics.promise_prototype);
    let n = agent.heap.size();
    let promise = Value::new_kind(
        agent,
        ObjectKind::Promise {
            state: PromiseState::Pending,
            result: Value::Null,
            fulfill_reactions: Vec::new(),
            reject_reactions: Vec::new(),
        },
        proto,
    );
    let p = match &promise {
        Value::Object(p) => *p,
        _ => ObjRef(0),
    };
    assert(p.0 == n);
    let ghost mid = *agent;
    let (resolve, reject) = create_resolving_functions(agent, p);
    proof {
        let g = ObjRef(mid.heap.len() as usize);
        assert(agent.heap.kind(g) == ObjectKind::ResolveGuard(false));
        assert(agent.heap.kind(p) == mid.heap.kind(p));
    }
    Capability { promise, resolve, reject }
}

/// A new promise capability from `constructor`: it constructs with an
/// executor that captures the resolve and reject functions it is given.
pub fn new_promise_capability<I: Interpreter>(
    agent: &mut Agent,
    host: &mut I,
    constructor: &Value,
    depth: usize,
) -> (r: Result<Capability, Value>)
    requires
        old(agent).wf(),
    ensures
        step(&*old(agent), &*final(agent)),
        !is_callable(&*old(agent), *constructor) ==> r is Err
            && is_error_with(&*final(agent), r->Err_0, "value is not a function"@),
        *constructor == Value::Object(old(agent).intrinsics.promise) ==> r is Ok
            && fresh_capability(&*final(agent), r->Ok_0)
            && only_allocated(&*old(agent), &*final(agent))
            && r->Ok_0.promise->Object_0.0 >= old(agent).heap.len(),
        is_callable(&*old(agent), *constructor) && *constructor != Value::Object(old(agent).intrinsics.promise)
            && r is Ok ==> captured_by(&*final(agent), ObjRef(old(agent).heap.len() as usize), r->Ok_0),
    decreases depth, 0nat,
{
    if !constructor.is_callable(agent) {
        return Err(agent.new_error("value is not a function"));
    }
    if let Value::Object(c) = constructor {
        if c.0 == agent.intrinsics.promise.0 {
            return Ok(intrinsic_capability(agent));
        }
    }
    if depth == 0 {
        return Err(agent.new_error("maximum call depth exceeded"));
    }
    let n = agent.heap.size();
    let executor = Value::new_builtin_function(
        agent,
        NativeFn::CapabilityExecutor { resolve: Value::Null, reject: Value::Null },
    );
    assert(executor == Value::Object(ObjRef(n)));
    let ghost made = *agent;
    let promise = construct_at(agent, host, constructor, vec![executor.duplicate()], constructor, depth - 1)?;
    let (resolve, reject) = match &executor {
        Value::Object(e) => {
            if agent.heap.is_valid(*e) {
                match agent.heap.kind_of(*e) {
                    ObjectKind::BuiltinFunction(NativeFn::CapabilityExecutor { resolve, reject }, _) => (resolve.duplicate(), reject.duplicate()),
                    _ => (Value::Null, Value::Null),
                }
            } else {
                (Value::Null, Value::Null)
            }
        },
        _ => (Value::Null, Value::Null),
    };
    proof {
        let e = ObjRef(n);
        assert(made.heap.valid(e));
        assert(crate::object::kind_stays(made.heap.kind(e), agent.heap.kind(e)));
    }
    Ok(Capability { promise, resolve, reject })
}

/// The capability a constructor gave holds the pair its executor (object
/// `e`) recorded.
pub open spec fn captured_by(a: &Agent, e: ObjRef, c: Capability) -> bool {
    &&& a.heap.valid(e)
    &&& a.heap.kind(e) is BuiltinFunction
    &&& a.heap.kind(e)->BuiltinFunction_0 == (NativeFn::CapabilityExecutor { resolve: c.resolve, reject: c.reject })
}

/// `x` as a promise of constructor `c`: `x` itself when it is a promise
/// made by `c`, else a new promise of `c` resolved with `x`.
pub fn promise_resolve_i<I: Interpreter>(
    agent: &mut Agent,
    host: &mut I,
    c: &Value,
    x: Value,
    depth: usize,
) -> (r: Result<Value, Value>)
    requires
        old(agent).wf(),
    ensures
        step(&*old(agent), &*final(agent)),
        depth > 1 && *c == Value::Object(old(agent).intrinsics.promise)
            && (!(x is Object) || (old(agent).heap.valid(x->Object_0) && !(old(agent).heap.kind(x->Object_0) is Promise)))
            ==> r is Ok && r->Ok_0 is Object && promise_in(&*final(agent), r->Ok_0->Object_0, PromiseState::Fulfilled)
            && promise_result(&*final(agent), r->Ok_0->Object_0) == x,
        depth > 0 && x is Object && old(agent).heap.valid(x->Object_0) && old(agent).heap.kind(x->Object_0) is Promise
            && crate::value::value_eq(old(agent).heap.lookup_m(x->Object_0, crate::key::KeyModel::Text("constructor"@)), *c)
            ==> r == Ok::<Value, Value>(x) && *final(agent) == *old(agent),
        r is Ok && r != Ok::<Value, Value>(x) ==> exists|m: Agent, cap: Capability, r2: Result<Value, Value>|
            #[trigger] resolved_through(m, *final(agent), cap, x, depth, r2) && cap.promise == r->Ok_0
            && m.wf() && old(agent).evolves_to(&m),
    decreases depth, 1nat,
{
    if depth == 0 {
        return Err(agent.new_error("maximum call depth exceeded"));
    }
    if is_promise(agent, &x) {
        let x_constructor = x.get(agent, &key("constructor"))?;
        if x_constructor.equals(c) {
            return Ok(x);
        }
    }
    let ghost a0 = *agent;
    let capability = new_promise_capability(agent, host, c, depth)?;
    let ghost mid = *agent;
    let ghost gx = x;
    let args = vec![x];
    assert(args@ =~= seq![gx]);
    let res = call_at(agent, host, &capability.resolve, Value::Null, args, depth - 1);
    proof {
        if depth > 1 && *c == Value::Object(a0.intrinsics.promise)
            && (!(gx is Object) || (a0.heap.valid(gx->Object_0) && !(a0.heap.kind(gx->Object_0) is Promise))) {
            let p = capability.promise->Object_0;
            let g = choose|g: ObjRef| #![trigger mid.heap.kind(g)]
                mid.heap.valid(g) && mid.heap.kind(g) == ObjectKind::ResolveGuard(false)
                && mid.heap.kind(capability.resolve->Object_0)->BuiltinFunction_0 == (NativeFn::ResolveFunction { promise: p, guard: g })
                && mid.heap.kind(capability.reject->Object_0)->BuiltinFunction_0 == (NativeFn::RejectFunction { promise: p, guard: g });
            assert(is_callable(&mid, capability.resolve));
            if gx is Object {
                assert(mid.heap.kind(gx->Object_0) == a0.heap.kind(gx->Object_0));
            }
            assert(resolve_function_effect(&mid, &*agent, p, g, gx, res));
        }
    }
    let ghost gres = res;
    let ghost gcap = capability;
    let _resolved = res?;
    proof {
        assert(resolved_through(mid, *agent, gcap, gx, depth, gres));
    }
    Ok(capability.promise)
}

/// A new capability `cap` (made by the constructor, up to state `m`) whose
/// resolve function is then called with `this` `Null` and `x`, successfully.
pub open spec fn resolved_through(m: Agent, b: Agent, cap: Capability, x: Value, depth: usize, r2: Result<Value, Value>) -> bool {
    call_contract(&m, &b, cap.resolve, Value::Null, seq![x], (depth - 1) as usize, r2) && r2 is Ok
}

/// The first step of `finally`'s two wrappers: the callback is called
/// once, with `this` `Null` and no arguments. When it throws, that throw is
/// the wrapper's outcome; otherwise the settled value or reason is passed
/// on through the value thunk or thrower.
pub open spec fn finally_first_step(a: Agent, m: Agent, on_finally: Value, depth: usize, r1: Result<Value, Value>) -> bool {
    call_contract(&a, &m, on_finally, Value::Null, Seq::empty(), (depth - 1) as usize, r1)
}

/// What calling native function `fr` (entry point `native`) with `this`
/// and `args` does, for the natives whose outcome the engine decides.
pub open spec fn native_effect(
    a: &Agent,
    b: &Agent,
    fr: ObjRef,
    native: NativeFn,
    this: Value,
    args: Seq<Value>,
    depth: usize,
    r: Result<Value, Value>,
) -> bool {
    let arg0 = if args.len() > 0 { args[0] } else { Value::Null };
    let arg1 = if args.len() > 1 { args[1] } else { Value::Null };
    &&& native_outcome(native, this) matches Some(o) ==> r == o && *b == *a
    &&& native matches NativeFn::CapabilityExecutor { resolve, reject } ==> capability_executor_effect(
        a, b, fr, resolve, reject, args, r)
    &&& (native is PromiseResolve || native is PromiseReject) && !(this is Object) ==> r is Err
        && is_error_with(b, r->Err_0, "this must be an object"@)
    &&& native matches NativeFn::ResolveFunction { promise, guard } ==> resolve_function_effect(
        a, b, promise, guard, arg0, r)
    &&& native matches NativeFn::RejectFunction { promise, guard } ==> reject_function_effect(
        a, b, promise, guard, arg0, r)
    &&& native is Then && depth > 0 ==> then_contract(a, b, this, arg0, arg1, r) && then_registered(a, b, this, arg0, arg1, r)
    &&& native is PromiseConstructor && depth > 1 && is_callable(a, arg0) ==> r is Ok && r->Ok_0 is Object
        && b.heap.valid(r->Ok_0->Object_0) && b.heap.kind(r->Ok_0->Object_0) is Promise
    &&& native is Finally && depth > 0 && !(this is Object) ==> r is Err
        && is_error_with(b, r->Err_0, "invalid this"@)
    &&& (native is PromiseReject && depth > 1 && this == Value::Object(a.intrinsics.promise)) ==> {
        &&& r is Ok && r->Ok_0 is Object
        &&& promise_in(b, r->Ok_0->Object_0, PromiseState::Rejected)
        &&& promise_result(b, r->Ok_0->Object_0) == arg0
    }
    &&& depth == 0 && native_outcome(native, this) is None && !(native is CapabilityExecutor)
        && !(native is ResolveFunction) && !(native is RejectFunction)
        && !((native is PromiseResolve || native is PromiseReject) && !(this is Object))
        ==> r is Err && is_error_with(b, r->Err_0, "maximum call depth exceeded"@)
}

/// Call native function `fr`, whose entry point is `native`.
pub fn call_native<I: Interpreter>(
    agent: &mut Agent,
    host: &mut I,
    fr: ObjRef,
    native: NativeFn,
    this: Value,
    args: Vec<Value>,
    depth: usize,
) -> (r: Result<Value, Value>)
    requires
        old(agent).wf(),
    ensures
        step(&*old(agent), &*final(agent)),
        native_effect(&*old(agent), &*final(agent), fr, native, this, args@, depth, r),
        native is Catch && depth > 0 && this is Object && old(agent).heap.valid(this->Object_0) ==> call_contract(
            &*old(agent), &*final(agent), old(agent).heap.lookup_m(this->Object_0, crate::key::KeyModel::Text("then"@)),
            this, seq![Value::Null, nth_or_null(args@, 0)], (depth - 1) as usize, r),
        (native is ThenFinally && depth > 0) ==> exists|m: Agent, r1: Result<Value, Value>|
            #[trigger] finally_first_step(*old(agent), m, native->ThenFinally_on_finally, depth, r1)
            && (r1 is Err ==> r == r1 && *final(agent) == m),
        (native is CatchFinally && depth > 0) ==> exists|m: Agent, r1: Result<Value, Value>|
            #[trigger] finally_first_step(*old(agent), m, native->CatchFinally_on_finally, depth, r1)
            && (r1 is Err ==> r == r1 && *final(agent) == m),
    decreases depth, 5nat,
{
    match &native {
        NativeFn::ValueThunk(v) => {
            return Ok(v.duplicate());
        },
        NativeFn::ValueThrower(v) => {
            return Err(v.duplicate());
        },
        NativeFn::ReturnThis => {
            return Ok(this);
        },
        NativeFn::RejectFunction { promise, guard } => {
            return promise_reject_function(agent, *promise, *guard, arg(&args, 0));
        },
        NativeFn::ResolveFunction { promise, guard } => {
            return promise_resolve_function(agent, host, *promise, *guard, arg(&args, 0), depth);
        },
        NativeFn::CapabilityExecutor { resolve, reject } => {
            if !resolve.is_null() || !reject.is_null() {
                return Err(agent.new_error("type error"));
            }
            let kind = ObjectKind::BuiltinFunction(
                NativeFn::CapabilityExecutor { resolve: arg(&args, 0), reject: arg(&args, 1) },
                Vec::new(),
            );
            if agent.heap.is_valid(fr) {
                let open = match agent.heap.kind_of(fr) {
                    ObjectKind::BuiltinFunction(NativeFn::CapabilityExecutor { .. }, _) => true,
                    _ => false,
                };
                if open {
                    agent.replace_kind(fr, kind);
                }
            }
            return Ok(Value::Null);
        },
        NativeFn::PromiseResolve | NativeFn::PromiseReject => {
            if !matches!(this, Value::Object(_)) {
                return Err(agent.new_error("this must be an object"));
            }
        },
        _ => {},
    }
    if depth == 0 {
        return Err(agent.new_error("maximum call depth exceeded"));
    }
    match native {
        NativeFn::Host(id) => {
            let first = host.call_native(agent, id, this, args);
            let completion = drive(agent, host, first, depth);
            normal_outcome(agent, completion)
        },
        NativeFn::PromiseConstructor => promise_constructor(agent, host, args, depth),
        NativeFn::PromiseResolve => {
            promise_resolve_i(agent, host, &this, arg(&args, 0), depth)
        },
        NativeFn::PromiseReject => {
            let capability = new_promise_capability(agent, host, &this, depth)?;
            call_at(agent, host, &capability.reject, Value::Null, vec![arg(&args, 0)], depth - 1)?;
            Ok(capability.promise)
        },
        NativeFn::Then => promise_proto_then(agent, host, this, arg(&args, 0), arg(&args, 1), depth),
        NativeFn::Catch => {
            let then = this.get(agent, &key("then"))?;
            let a1 = arg(&args, 0);
            let ghost ga = a1;
            let cargs = vec![Value::Null, a1];
            assert(cargs@ =~= seq![Value::Null, ga]);
            call_at(agent, host, &then, this, cargs, depth - 1)
        },
        NativeFn::Finally => promise_proto_finally(agent, host, this, arg(&args, 0), depth),
        NativeFn::ThenFinally { constructor, on_finally } => {
            let ghost a0 = *agent;
            let no_args: Vec<Value> = Vec::new();
            let first = call_at(agent, host, &on_finally, Value::Null, no_args, depth - 1);
            proof {
                assert(no_args@ =~= Seq::<Value>::empty());
                assert(finally_first_step(a0, *agent, on_finally, depth, first));
            }
            let result = first?;
            let promise = promise_resolve_i(agent, host, &constructor, result, depth)?;
            let thunk = Value::new_builtin_function(agent, NativeFn::ValueThunk(arg(&args, 0)));
            let then = promise.get(agent, &key("then"))?;
            call_at(agent, host, &then, promise, vec![thunk], depth - 1)
        },
        NativeFn::CatchFinally { constructor, on_finally } => {
            let ghost a0 = *agent;
            let no_args: Vec<Value> = Vec::new();
            let first = call_at(agent, host, &on_finally, Value::Null, no_args, depth - 1);
            proof {
                assert(no_args@ =~= Seq::<Value>::empty());
                assert(finally_first_step(a0, *agent, on_finally, depth, first));
            }
            let result = first?;
            let promise = promise_resolve_i(agent, host, &constructor, result, depth)?;
            let thrower = Value::new_builtin_function(agent, NativeFn::ValueThrower(arg(&args, 0)));
            let then = promise.get(agent, &key("then"))?;
            call_at(agent, host, &then, promise, vec![thrower], depth - 1)
        },
        NativeFn::ErrorToString => error_to_string(agent, this),
        NativeFn::AwaitFulfilled { continuation, resolve, reject } => {
            let first = host.resume(agent, continuation, Ok(arg(&args, 0)));
            let completion = drive(agent, host, first, depth);
            drive_async(agent, host, completion, &resolve, &reject, depth)
        },
        NativeFn::AwaitRejected { continuation, resolve, reject } => {
            let first = host.resume(agent, continuation, Err(arg(&args, 0)));
            let completion = drive(agent, host, first, depth);
            drive_async(agent, host, completion, &resolve, &reject, depth)
        },
        NativeFn::CreateTimeout => crate::timers::create_timeout(agent, &args),
        NativeFn::FileOp(op) => crate::fs::file_request(agent, host, op, &args, depth),
        // Answered before the depth check.
        NativeFn::ResolveFunction { .. } | NativeFn::RejectFunction { .. } | NativeFn::CapabilityExecutor { .. }
        | NativeFn::ValueThunk(_) | NativeFn::ValueThrower(_) | NativeFn::ReturnThis => Ok(Value::Null),
    }
}

/// The outcome of the natives that only hand back what they hold: the
/// value thunk of `finally` returns its value, the thrower throws it, and
/// the iterator method returns `this`.
pub open spec fn native_outcome(native: NativeFn, this: Value) -> Option<Result<Value, Value>> {
    match native {
        NativeFn::ValueThunk(v) => Some(Ok(v)),
        NativeFn::ValueThrower(v) => Some(Err(v)),
        NativeFn::ReturnThis => Some(Ok(this)),
        _ => None,
    }
}

/// What the executor that a capability hands to a constructor does: the
/// first call records the resolve and reject functions it is given; a call
/// after that fails.
pub open spec fn capability_executor_effect(
    a: &Agent,
    b: &Agent,
    fr: ObjRef,
    resolve: Value,
    reject: Value,
    args: Seq<Value>,
    r: Result<Value, Value>,
) -> bool {
    &&& !(resolve is Null && reject is Null) ==> r is Err && is_error_with(b, r->Err_0, "type error"@)
    &&& (resolve is Null && reject is Null && a.heap.valid(fr) && a.heap.kind(fr) is BuiltinFunction
        && a.heap.kind(fr)->BuiltinFunction_0 is CapabilityExecutor) ==> {
        &&& r == Ok::<Value, Value>(Value::Null)
        &&& b.heap.kind(fr) is BuiltinFunction
        &&& b.heap.kind(fr)->BuiltinFunction_0 == (NativeFn::CapabilityExecutor {
            resolve: if args.len() > 0 { args[0] } else { Value::Null },
            reject: if args.len() > 1 { args[1] } else { Value::Null },
        })
    }
}

/// What a resolve function does: nothing when its guard has fired (or is
/// not a guard); otherwise the guard fires, and a pending promise resolved
/// with itself is rejected with a self-resolution error, and one resolved
/// with a value that is not a promise is fulfilled with it.
pub open spec fn resolve_function_effect(
    a: &Agent,
    b: &Agent,
    p: ObjRef,
    g: ObjRef,
    x: Value,
    r: Result<Value, Value>,
) -> bool {
    let fresh = a.heap.valid(g) && a.heap.kind(g) == ObjectKind::ResolveGuard(false);
    &&& !fresh ==> *b == *a && r == Ok::<Value, Value>(Value::Null)
    &&& fresh ==> b.heap.kind(g) == ObjectKind::ResolveGuard(true)
    &&& fresh && promise_in(a, p, PromiseState::Pending) && x == Value::Object(p) ==> {
        &&& promise_in(b, p, PromiseState::Rejected)
        &&& is_error_with(b, promise_result(b, p), "cannot resolve a promise with itself"@)
        &&& r == Ok::<Value, Value>(Value::Null)
        &&& b.jobs@ == a.jobs@ + jobs_for(a.heap.kind(p)->Promise_reject_reactions@, promise_result(b, p))
        &&& b.heap.kind(p)->Promise_fulfill_reactions@.len() == 0
        &&& b.heap.kind(p)->Promise_reject_reactions@.len() == 0
    }
    &&& fresh && promise_in(a, p, PromiseState::Pending) && !(x is Object && a.heap.valid(x->Object_0) && a.heap.kind(x->Object_0) is Promise) ==> {
        &&& promise_in(b, p, PromiseState::Fulfilled)
        &&& promise_result(b, p) == x
        &&& r == Ok::<Value, Value>(Value::Null)
        &&& b.jobs@ == a.jobs@ + jobs_for(a.heap.kind(p)->Promise_fulfill_reactions@, x)
        &&& b.heap.kind(p)->Promise_fulfill_reactions@.len() == 0
        &&& b.heap.kind(p)->Promise_reject_reactions@.len() == 0
    }
}

/// What a reject function does: nothing when its guard has fired;
/// otherwise the guard fires and a pending promise is rejected with the
/// reason as given.
pub open spec fn reject_function_effect(
    a: &Agent,
    b: &Agent,
    p: ObjRef,
    g: ObjRef,
    x: Value,
    r: Result<Value, Value>,
) -> bool {
    let fresh = a.heap.valid(g) && a.heap.kind(g) == ObjectKind::ResolveGuard(false);
    &&& !fresh ==> *b == *a && r == Ok::<Value, Value>(Value::Null)
    &&& fresh ==> b.heap.kind(g) == ObjectKind::ResolveGuard(true)
    &&& fresh && promise_in(a, p, PromiseState::Pending) ==> {
        &&& promise_in(b, p, PromiseState::Rejected)
        &&& promise_result(b, p) == x
        &&& b.jobs@ == a.jobs@ + jobs_for(a.heap.kind(p)->Promise_reject_reactions@, x)
        &&& b.heap.kind(p)->Promise_fulfill_reactions@.len() == 0
        &&& b.heap.kind(p)->Promise_reject_reactions@.len() == 0
        &&& props_same(a, b)
    }
    &&& r == Ok::<Value, Value>(Value::Null)
}

/// The resolve function of a resolving pair.
pub fn promise_resolve_function<I: Interpreter>(
    agent: &mut Agent,
    host: &mut I,
    promise: ObjRef,
    guard: ObjRef,
    resolution: Value,
    depth: usize,
) -> (r: Result<Value, Value>)
    requires
        old(agent).wf(),
    ensures
        step(&*old(agent), &*final(agent)),
        resolve_function_effect(&*old(agent), &*final(agent), promise, guard, resolution, r),
        thenable_step(&*old(agent), *final(agent), promise, guard, resolution, depth, r),
    decreases depth, 4nat,
{
    if !fire_guard(agent, guard) {
        return Ok(Value::Null);
    }
    if !is_pending(agent, promise) {
        return Ok(Value::Null);
    }
    let self_resolution = match &resolution {
        Value::Object(x) => x.0 == promise.0,
        _ => false,
    };
    if self_resolution {
        let e = agent.new_error("cannot resolve a promise with itself");
        let ghost mid = *agent;
        reject_promise(agent, promise, e);
        proof {
            lemma_error_kept(&mid, &*agent, e, "cannot resolve a promise with itself"@);
        }
        return Ok(Value::Null);
    }
    if is_promise(agent, &resolution) {
        if depth == 0 {
            return Err(agent.new_error("maximum call depth exceeded"));
        }
        let (resolve, reject) = create_resolving_functions(agent, promise);
        let ghost paired = *agent;
        let then = resolution.get(agent, &key("then"))?;
        let ghost gres = resolve;
        let ghost grej = reject;
        let targs = vec![resolve, reject.duplicate()];
        assert(targs@ =~= seq![gres, grej]);
        let then_call_result = call_at(agent, host, &then, resolution, targs, depth - 1);
        proof {
            assert(fresh_pair(&paired, promise, gres, grej));
            assert(then == paired.heap.lookup_m(resolution->Object_0, crate::key::KeyModel::Text("then"@)));
            assert(then_called(paired, *agent, resolution, gres, grej, depth, then_call_result));
        }
        let ghost m2 = *agent;
        match then_call_result {
            Ok(v) => Ok(v),
            Err(e) => {
                let ghost ge = e;
                let rargs = vec![e];
                assert(rargs@ =~= seq![ge]);
                let res = call_at(agent, host, &reject, Value::Null, rargs, depth - 1);
                assert(call_contract(&m2, &*agent, grej, Value::Null, seq![ge], (depth - 1) as usize, res));
                res
            },
        }
    } else {
        fulfill_promise(agent, promise, resolution);
        Ok(Value::Null)
    }
}

/// `f` and `j` are a fresh resolving pair for promise `p`: a resolve and a
/// reject function sharing a guard that has not fired.
pub open spec fn fresh_pair(a: &Agent, p: ObjRef, f: Value, j: Value) -> bool {
    &&& f is Object && a.heap.valid(f->Object_0) && a.heap.kind(f->Object_0) is BuiltinFunction
    &&& j is Object && a.heap.valid(j->Object_0) && a.heap.kind(j->Object_0) is BuiltinFunction
    &&& exists|g: ObjRef| #![trigger a.heap.kind(g)]
        a.heap.valid(g) && a.heap.kind(g) == ObjectKind::ResolveGuard(false)
        && a.heap.kind(f->Object_0)->BuiltinFunction_0 == (NativeFn::ResolveFunction { promise: p, guard: g })
        && a.heap.kind(j->Object_0)->BuiltinFunction_0 == (NativeFn::RejectFunction { promise: p, guard: g })
}

/// From `m` on, the thenable `x`'s `then` (as `m` finds it) is called with
/// `this` `x` and the pair `f`, `j` as arguments, giving `r1`.
pub open spec fn then_called(m: Agent, b: Agent, x: Value, f: Value, j: Value, depth: usize, r1: Result<Value, Value>) -> bool {
    call_contract(&m, &b, m.heap.lookup_m(x->Object_0, crate::key::KeyModel::Text("then"@)), x, seq![f, j],
        (depth - 1) as usize, r1)
}

/// Resolving a pending promise with another promise: a fresh resolving
/// pair for `p` is made and the other promise's `then` is called with it;
/// when that call succeeds, its value is the result and nothing more
/// happens; when it throws, the thrown value goes to the new reject
/// function, whose outcome is the result.
pub open spec fn thenable_step(a: &Agent, b: Agent, p: ObjRef, g: ObjRef, x: Value, depth: usize, r: Result<Value, Value>) -> bool {
    (a.heap.valid(g) && a.heap.kind(g) == ObjectKind::ResolveGuard(false) && promise_in(a, p, PromiseState::Pending)
        && x is Object && x != Value::Object(p) && a.heap.valid(x->Object_0) && a.heap.kind(x->Object_0) is Promise
        && depth > 0) ==> exists|m: Agent, m2: Agent, f: Value, j: Value, r1: Result<Value, Value>|
        #[trigger] then_called(m, m2, x, f, j, depth, r1) && fresh_pair(&m, p, f, j) && m.wf() && a.evolves_to(&m)
        && (r1 is Ok ==> r == r1 && b == m2)
        && (r1 is Err ==> exists|r2: Result<Value, Value>| #[trigger] call_contract(&m2, &b, j, Value::Null,
            seq![r1->Err_0], (depth - 1) as usize, r2) && r == r2)
}

/// The reject function of a resolving pair.
pub fn promise_reject_function(agent: &mut Agent, promise: ObjRef, guard: ObjRef, reason: Value) -> (r: Result<Value, Value>)
    requires
        old(agent).wf(),
    ensures
        step(&*old(agent), &*final(agent)),
        reject_function_effect(&*old(agent), &*final(agent), promise, guard, reason, r),
{
    if !fire_guard(agent, guard) {
        return Ok(Value::Null);
    }
    let ghost mid = *agent;
    if is_pending(agent, promise) {
        reject_promise(agent, promise, reason);
        proof {
            assert(promise != guard);
            lemma_props_same_trans(&*old(agent), &mid, &*agent);
        }
    }
    Ok(Value::Null)
}

/// `new Promise(executor)`: a pending promise; the executor is called with
/// its resolving pair, and a throw from it rejects the promise.
pub fn promise_constructor<I: Interpreter>(
    agent: &mut Agent,
    host: &mut I,
    args: Vec<Value>,
    depth: usize,
) -> (r: Result<Value, Value>)
    requires
        old(agent).wf(),
    ensures
        step(&*old(agent), &*final(agent)),
        !is_callable(&*old(agent), if args@.len() > 0 { args@[0] } else { Value::Null }) ==> r is Err
            && is_error_with(&*final(agent), r->Err_0, "executor must be a function"@)
            && only_allocated(&*old(agent), &*final(agent)),
        r is Ok ==> r->Ok_0 is Object && final(agent).heap.valid(r->Ok_0->Object_0)
            && final(agent).heap.kind(r->Ok_0->Object_0) is Promise
            && r->Ok_0->Object_0.0 >= old(agent).heap.len(),
        is_callable(&*old(agent), if args@.len() > 0 { args@[0] } else { Value::Null }) && depth > 1 ==> r is Ok,
        is_callable(&*old(agent), if args@.len() > 0 { args@[0] } else { Value::Null }) && depth > 1 ==>
            exists|pre: Agent, m: Agent, f: Value, j: Value, r1: Result<Value, Value>|
            #[trigger] executor_ran(pre, m, *final(agent), nth_or_null(args@, 0),
                r->Ok_0->Object_0, f, j, depth, r1)
                && pre.wf() && old(agent).evolves_to(&pre) && m.wf() && pre.evolves_to(&m),
    decreases depth, 4nat,
{
    let executor = arg(&args, 0);
    if !executor.is_callable(agent) {
        return Err(agent.new_error("executor must be a function"));
    }
    if depth == 0 {
        return Err(agent.new_error("maximum call depth exceeded"));
    }
    let n = agent.heap.size();
    let proto = Value::Object(agent.intrinsics.promise_prototype);
    let promise = Value::new_kind(
        agent,
        ObjectKind::Promise {
            state: PromiseState::Pending,
            result: Value::Null,
            fulfill_reactions: Vec::new(),
            reject_reactions: Vec::new(),
        },
        proto,
    );
    let p = match &promise {
        Value::Object(p) => *p,
        _ => ObjRef(0),
    };
    assert(p.0 == n);
    let ghost created = *agent;
    let ghost n0 = agent.heap.len();
    let (resolve, reject) = create_resolving_functions(agent, p);
    let ghost paired = *agent;
    let ghost (gres, grej) = (resolve, reject);
    let eargs0 = vec![resolve, reject.duplicate()];
    assert(eargs0@ =~= seq![gres, grej]);
    let result = call_at(agent, host, &executor, Value::Null, eargs0, depth - 1);
    let ghost ran = *agent;
    proof {
        assert(fresh_pair(&paired, p, gres, grej));
    }
    if let Err(e) = result {
        let ghost before = *agent;
        let ghost ge = e;
        let eargs = vec![e];
        assert(eargs@ =~= seq![ge]);
        let res = call_at(agent, host, &reject, Value::Null, eargs, depth - 1);
        proof {
            let jr = reject->Object_0;
            assert(paired.heap.valid(jr));
            assert(crate::object::kind_stays(paired.heap.kind(jr), before.heap.kind(jr)));
            assert(is_callable(&before, reject));
            if depth > 1 {
                assert(res == Ok::<Value, Value>(Value::Null));
            }
            assert(call_contract(&ran, &*agent, grej, Value::Null, seq![ge], (depth - 1) as usize, res));
            assert(executor_ran(paired, ran, *agent, executor, p, gres, grej, depth, result));
        }
        res?;
    } else {
        proof {
            assert(executor_ran(paired, ran, *agent, executor, p, gres, grej, depth, result));
        }
    }
    proof {
        assert(created.heap.valid(p));
        assert(crate::object::kind_stays(created.heap.kind(p), agent.heap.kind(p)));
    }
    Ok(promise)
}

/// Argument `i` of `s`, or `Null`.
pub open spec fn nth_or_null(s: Seq<Value>, i: int) -> Value {
    if 0 <= i < s.len() { s[i] } else { Value::Null }
}

/// The executor of `new Promise` was run: from `pre` (where `f`, `j` are a
/// fresh resolving pair for promise `p`) to `m` it is called with `this`
/// `Null` and the pair, giving `r1`; when it throws, the throw value goes to
/// the reject function (from `m` to `b`), else nothing more happens.
pub open spec fn executor_ran(pre: Agent, m: Agent, b: Agent, executor: Value, p: ObjRef, f: Value, j: Value,
    depth: usize, r1: Result<Value, Value>) -> bool {
    &&& fresh_pair(&pre, p, f, j)
    &&& call_contract(&pre, &m, executor, Value::Null, seq![f, j], (depth - 1) as usize, r1)
    &&& r1 is Ok ==> b == m
    &&& r1 is Err ==> exists|r2: Result<Value, Value>| #[trigger] call_contract(&m, &b, j, Value::Null,
        seq![r1->Err_0], (depth - 1) as usize, r2)
}

/// `promise.then(onFulfilled, onRejected)`: a new promise from the same
/// constructor; handlers that are not functions pass the value through.
pub fn promise_proto_then<I: Interpreter>(
    agent: &mut Agent,
    host: &mut I,
    this: Value,
    on_fulfilled: Value,
    on_rejected: Value,
    depth: usize,
) -> (r: Result<Value, Value>)
    requires
        old(agent).wf(),
    ensures
        step(&*old(agent), &*final(agent)),
        then_contract(&*old(agent), &*final(agent), this, on_fulfilled, on_rejected, r),
        then_registered(&*old(agent), &*final(agent), this, on_fulfilled, on_rejected, r),
    decreases depth, 4nat,
{
    if !is_promise(agent, &this) {
        return Err(agent.new_error("this is not a promise"));
    }
    let handler_f = if on_fulfilled.is_callable(agent) { on_fulfilled.duplicate() } else { Value::Null };
    let handler_r = if on_rejected.is_callable(agent) { on_rejected.duplicate() } else { Value::Null };
    let constructor = this.get(agent, &key("constructor"))?;
    let capability = new_promise_capability(agent, host, &constructor, depth)?;
    let ghost mid = *agent;
    if !is_promise(agent, &this) {
        return Err(agent.new_error("this is not a promise"));
    }
    let p = match &this {
        Value::Object(p) => *p,
        _ => ObjRef(0),
    };
    let result = capability.promise.duplicate();
    let fulfill = Reaction { kind: ReactionKind::Fulfill, capability: Some(capability.duplicate()), handler: handler_f };
    let reject = Reaction { kind: ReactionKind::Reject, capability: Some(capability), handler: handler_r };
    let ghost c = fulfill.capability->Some_0;
    let ghost before_then = *agent;
    perform_then(agent, p, fulfill, reject);
    proof {
        assert(fulfill == then_reaction(ReactionKind::Fulfill, c, on_fulfilled, &*old(agent)));
        assert(reject == then_reaction(ReactionKind::Reject, c, on_rejected, &*old(agent)));
        assert(then_outcome(&before_then, &*agent, p, fulfill, reject));
        if old(agent).heap.lookup_m(p, crate::key::KeyModel::Text("constructor"@)) == Value::Object(old(agent).intrinsics.promise) {
            assert(mid.heap.kind(p) == old(agent).heap.kind(p));
            assert(result->Object_0 != p);
            assert(fulfill == then_reaction(ReactionKind::Fulfill, c, on_fulfilled, &*old(agent)));
            assert(reject == then_reaction(ReactionKind::Reject, c, on_rejected, &*old(agent)));
        }
    }
    Ok(result)
}

/// What `then` does: on a value that is not a promise it fails; on a
/// promise whose constructor is the intrinsic `Promise` it returns a new
/// pending promise and registers the two reactions as `then_outcome` says.
pub open spec fn then_contract(a: &Agent, b: &Agent, this: Value, on_fulfilled: Value, on_rejected: Value, r: Result<Value, Value>) -> bool {
    &&& (!(this is Object && a.heap.valid(this->Object_0) && a.heap.kind(this->Object_0) is Promise)
            ==> r is Err && is_error_with(b, r->Err_0, "this is not a promise"@))
    &&& ((this is Object && a.heap.valid(this->Object_0) && a.heap.kind(this->Object_0) is Promise
            && a.heap.lookup_m(this->Object_0, crate::key::KeyModel::Text("constructor"@))
                == Value::Object(a.intrinsics.promise)) ==> {
            &&& r is Ok
            &&& r->Ok_0 is Object && r->Ok_0->Object_0.0 >= a.heap.len()
            &&& promise_in(b, r->Ok_0->Object_0, PromiseState::Pending)
            &&& exists|c: Capability| #![trigger then_reaction(ReactionKind::Fulfill, c, on_fulfilled, a)]
                c.promise == r->Ok_0 && then_outcome(a, b, this->Object_0,
                then_reaction(ReactionKind::Fulfill, c, on_fulfilled, a),
                then_reaction(ReactionKind::Reject, c, on_rejected, a))
        })
}

/// `then` on a promise `this`, whatever its constructor: when it succeeds,
/// the capability the constructor gave (from state `mid` on, after the
/// constructor ran) gets the two reactions, with non-function handlers
/// recorded as `Null`.
pub open spec fn then_registered(a: &Agent, b: &Agent, this: Value, on_fulfilled: Value, on_rejected: Value,
    r: Result<Value, Value>) -> bool {
    (this is Object && a.heap.valid(this->Object_0) && a.heap.kind(this->Object_0) is Promise && r is Ok) ==>
        exists|mid: Agent, c: Capability| #![trigger then_outcome(&mid, b, this->Object_0,
            then_reaction(ReactionKind::Fulfill, c, on_fulfilled, a), then_reaction(ReactionKind::Reject, c, on_rejected, a))]
        mid.wf() && a.evolves_to(&mid) && c.promise == r->Ok_0 && then_outcome(&mid, b, this->Object_0,
            then_reaction(ReactionKind::Fulfill, c, on_fulfilled, a), then_reaction(ReactionKind::Reject, c, on_rejected, a))
}

/// The reaction `then` registers: a handler that is not a function of the
/// agent is recorded as `Null`.
pub open spec fn then_reaction(kind: ReactionKind, c: Capability, handler: Value, a: &Agent) -> Reaction {
    Reaction {
        kind,
        capability: Some(c),
        handler: if is_callable(a, handler) { handler } else { Value::Null },
    }
}

/// `promise.finally(onFinally)`: `onFinally` runs with no arguments on
/// either path, and the value or reason passes through unless it throws or
/// returns a rejected promise.
pub fn promise_proto_finally<I: Interpreter>(
    agent: &mut Agent,
    host: &mut I,
    this: Value,
    on_finally: Value,
    depth: usize,
) -> (r: Result<Value, Value>)
    requires
        old(agent).wf(),
    ensures
        step(&*old(agent), &*final(agent)),
        !(this is Object) ==> r is Err && is_error_with(&*final(agent), r->Err_0, "invalid this"@)
            && only_allocated(&*old(agent), &*final(agent)),
        this is Object && old(agent).heap.valid(this->Object_0) && depth > 0
            && !(old(agent).heap.lookup_m(this->Object_0, crate::key::KeyModel::Text("constructor"@)) is Object)
            ==> r is Err && is_error_with(&*final(agent), r->Err_0, "this does not derive a valid constructor"@)
            && only_allocated(&*old(agent), &*final(agent)),
        this is Object && old(agent).heap.valid(this->Object_0) && depth > 0
            && old(agent).heap.lookup_m(this->Object_0, crate::key::KeyModel::Text("constructor"@)) is Object
            ==> exists|pre: Agent, m: Agent, tf: Value, cf: Value| #[trigger] finally_wrappers(pre, m, *final(agent), this, on_finally,
                old(agent).heap.lookup_m(this->Object_0, crate::key::KeyModel::Text("constructor"@)), tf, cf, depth, r)
                && pre.wf() && old(agent).evolves_to(&pre) && m.wf() && pre.evolves_to(&m),
    decreases depth, 4nat,
{
    if !matches!(this, Value::Object(_)) {
        return Err(agent.new_error("invalid this"));
    }
    if depth == 0 {
        return Err(agent.new_error("maximum call depth exceeded"));
    }
    let c = this.get(agent, &key("constructor"))?;
    if !matches!(c, Value::Object(_)) {
        return Err(agent.new_error("this does not derive a valid constructor"));
    }
    let ghost c_g = c;
    let ghost on_finally_g = on_finally;
    let ghost pre = *agent;
    let (then_finally, catch_finally) = if on_finally.is_callable(agent) {
        let tf = Value::new_builtin_function(
            agent,
            NativeFn::ThenFinally { constructor: c.duplicate(), on_finally: on_finally.duplicate() },
        );
        let cf = Value::new_builtin_function(
            agent,
            NativeFn::CatchFinally { constructor: c, on_finally },
        );
        (tf, cf)
    } else {
        (on_finally.duplicate(), on_finally)
    };
    let ghost m = *agent;
    let then = this.get(agent, &key("then"))?;
    let ghost (gtf, gcf) = (then_finally, catch_finally);
    let fargs = vec![then_finally, catch_finally];
    assert(fargs@ =~= seq![gtf, gcf]);
    let res = call_at(agent, host, &then, this, fargs, depth - 1);
    proof {
        if old(agent).heap.valid(this->Object_0) {
            assert(pre.heap.valid(this->Object_0));
            assert(m.heap.valid(this->Object_0));
            assert(finally_wrappers(pre, m, *agent, this, on_finally_g, c_g, gtf, gcf, depth, res));
        }
    }
    res
}

/// What `finally` hands to `then`: with a callable callback, a then-finally
/// and a catch-finally wrapper that carry the constructor and the callback;
/// otherwise the callback itself, twice (callability as judged in `pre`,
/// before the wrappers were made). From `m` on, `this.then` (as `m`
/// finds it) is called with `this` and the two, and its outcome is
/// `finally`'s.
pub open spec fn finally_wrappers(
    pre: Agent,
    m: Agent,
    b: Agent,
    this: Value,
    on_finally: Value,
    c: Value,
    tf: Value,
    cf: Value,
    depth: usize,
    r: Result<Value, Value>,
) -> bool {
    &&& call_contract(&m, &b, m.heap.lookup_m(this->Object_0, crate::key::KeyModel::Text("then"@)), this,
        seq![tf, cf], (depth - 1) as usize, r)
    &&& is_callable(&pre, on_finally) ==> {
        &&& tf is Object && m.heap.valid(tf->Object_0) && m.heap.kind(tf->Object_0) is BuiltinFunction
        &&& m.heap.kind(tf->Object_0)->BuiltinFunction_0 == (NativeFn::ThenFinally { constructor: c, on_finally })
        &&& cf is Object && m.heap.valid(cf->Object_0) && m.heap.kind(cf->Object_0) is BuiltinFunction
        &&& m.heap.kind(cf->Object_0)->BuiltinFunction_0 == (NativeFn::CatchFinally { constructor: c, on_finally })
    }
    &&& !is_callable(&pre, on_finally) ==> tf == on_finally && cf == on_finally
}

/// `Error.prototype.toString`: the name, then `: ` and the message when
/// there is one.
pub fn error_to_string(agent: &mut Agent, this: Value) -> (r: Result<Value, Value>)
    requires
        old(agent).wf(),
    ensures
        step(&*old(agent), &*final(agent)),
        this is Object && old(agent).heap.valid(this->Object_0) ==> {
            let o = this->Object_0;
            let name = old(agent).heap.lookup_m(o, crate::key::KeyModel::Text("name"@));
            let message = old(agent).heap.lookup_m(o, crate::key::KeyModel::Text("message"@));
            &&& (name is String && message is String) ==> r is Ok && r->Ok_0 is String
                && r->Ok_0->String_0@ == name->String_0@ + ": "@ + message->String_0@
            &&& (name is String && message is Null) ==> r == Ok::<Value, Value>(name)
            &&& !(name is String) ==> r is Err && is_error_with(&*final(agent), r->Err_0, "Invalid error object"@)
        },
{
    let name = match this.get(agent, &key("name"))? {
        Value::String(s) => s,
        _ => {
            return Err(agent.new_error("Invalid error object"));
        },
    };
    let text = match this.get(agent, &key("message"))? {
        Value::String(m) => {
            let head = join2(name.as_str(), ": ");
            join2(head.as_str(), m.as_str())
        },
        Value::Null => name,
        _ => {
            return Err(agent.new_error("Invalid error object"));
        },
    };
    Ok(Value::String(text))
}

/// The resolve or reject function that a handler outcome goes to.
pub open spec fn settle_with(c: Capability, outcome: Result<Value, Value>) -> Value {
    if outcome is Ok { c.resolve } else { c.reject }
}

pub open spec fn outcome_value(outcome: Result<Value, Value>) -> Value {
    match outcome {
        Ok(v) => v,
        Err(e) => e,
    }
}

/// The first half of a reaction job, from `a` to `m`: with no handler the
/// argument passes through as a value (fulfil reaction) or a reason (reject
/// reaction) and nothing changes; with a handler, the handler is called
/// with `this` `Null` and the argument, and `r1` is its outcome.
pub open spec fn handler_step(a: Agent, m: Agent, job: Job, r1: Result<Value, Value>) -> bool {
    if job.reaction.handler is Null {
        m == a && r1 == (if job.reaction.kind == ReactionKind::Fulfill { Ok::<Value, Value>(job.argument) } else {
            Err::<Value, Value>(job.argument) })
    } else {
        m.wf() && a.evolves_to(&m) && call_contract(&a, &m, job.reaction.handler, Value::Null, seq![job.argument], MAX_DEPTH, r1)
    }
}

/// The second half, from `m` to `b`: the outcome `r1` goes to the resolve
/// (value) or reject (reason) function of the reaction's capability, called
/// with `this` `Null`; without a capability nothing more happens.
pub open spec fn settle_step(m: Agent, b: Agent, job: Job, r1: Result<Value, Value>, r: Result<(), Value>) -> bool {
    match job.reaction.capability {
        None => b == m && r is Ok,
        Some(c) => exists|r2: Result<Value, Value>| #[trigger] call_contract(
            &m, &b, settle_with(c, r1), Value::Null, seq![outcome_value(r1)], MAX_DEPTH, r2)
            && (r2 is Ok ==> r is Ok) && (r2 is Err ==> r == Err::<(), Value>(r2->Err_0)),
    }
}

/// What running reaction job `job` does from `a` to `b`, with outcome `r`.
pub open spec fn job_effect(a: Agent, b: Agent, job: Job, r: Result<(), Value>) -> bool {
    exists|m: Agent, r1: Result<Value, Value>| #[trigger] handler_step(a, m, job, r1) && settle_step(m, b, job, r1, r)
}

/// Run one reaction job: the handler gets the argument (no handler passes
/// it through as a value or as a reason), and the outcome resolves or
/// rejects the reaction's capability.
pub fn promise_reaction_job<I: Interpreter>(agent: &mut Agent, host: &mut I, job: Job) -> (r: Result<(), Value>)
    requires
        old(agent).wf(),
    ensures
        step(&*old(agent), &*final(agent)),
        job_effect(*old(agent), *final(agent), job, r),
{
    let ghost j = job;
    let Job { reaction, argument } = job;
    let ghost a0 = *agent;
    let handler_result = if reaction.handler.is_null() {
        match reaction.kind {
            ReactionKind::Fulfill => Ok(argument),
            ReactionKind::Reject => Err(argument),
        }
    } else {
        let args = vec![argument];
        let res = call_at(agent, host, &reaction.handler, Value::Null, args, MAX_DEPTH);
        assert(args@ =~= seq![j.argument]);
        res
    };
    let ghost m = *agent;
    let ghost outcome_of = handler_result;
    proof {
        if !(j.reaction.handler is Null) {
            assert(call_contract(&a0, &m, j.reaction.handler, Value::Null, seq![j.argument], MAX_DEPTH, outcome_of));
        }
        assert(handler_step(a0, m, j, outcome_of));
    }
    if let Some(capability) = reaction.capability {
        let ghost outcome = handler_result;
        let (f, v) = match handler_result {
            Ok(v) => (capability.resolve, v),
            Err(e) => (capability.reject, e),
        };
        let args = vec![v];
        let res = call_at(agent, host, &f, Value::Null, args, MAX_DEPTH);
        proof {
            assert(j.reaction.capability == Some(capability));
            assert(j.reaction.handler is Null ==> outcome == (if j.reaction.kind == ReactionKind::Fulfill { Ok::<Value, Value>(j.argument) } else { Err::<Value, Value>(j.argument) }));
            assert(args@ =~= seq![outcome_value(outcome)]);
            assert(f == settle_with(capability, outcome));
            assert(call_contract(&m, &*agent, settle_with(capability, outcome), Value::Null, seq![outcome_value(outcome)], MAX_DEPTH, res));
            if !(j.reaction.handler is Null) {
                assert(call_contract(&a0, &m, j.reaction.handler, Value::Null, seq![j.argument], MAX_DEPTH, outcome));
                assert(call_contract(&m, &*agent, settle_with(j.reaction.capability->Some_0, outcome), Value::Null,
                    seq![outcome_value(outcome)], MAX_DEPTH, res));
            } else {
                assert(m == a0);
                let pass = if j.reaction.kind == ReactionKind::Fulfill { Ok::<Value, Value>(j.argument) } else { Err::<Value, Value>(j.argument) };
                assert(outcome == pass);
                assert(call_contract(&a0, &*agent, settle_with(j.reaction.capability->Some_0, pass), Value::Null,
                    seq![outcome_value(pass)], MAX_DEPTH, res));
            }
        }
        let out: Result<(), Value> = match res {
            Ok(_) => Ok(()),
            Err(e) => Err(e),
        };
        proof {
            assert(settle_step(m, *agent, j, outcome_of, out));
            assert(handler_step(a0, m, j, outcome_of));
            assert(job_effect(a0, *agent, j, out));
        }
        return out;
    } else {
        proof {
            if !(j.reaction.handler is Null) {
                assert(call_contract(&a0, &m, j.reaction.handler, Value::Null, seq![j.argument], MAX_DEPTH, handler_result));
            } else {
                assert(*agent == a0);
            }
            assert(j.reaction.capability is None);
            assert(handler_step(a0, m, j, outcome_of));
            assert(settle_step(m, *agent, j, outcome_of, Ok::<(), Value>(())));
            assert(job_effect(a0, *agent, j, Ok::<(), Value>(())));
        }
    }
    Ok(())
}

/// Nothing observable changed.
pub open spec fn same_state(a: &Agent, b: &Agent) -> bool {
    &&& b.heap == a.heap
    &&& b.jobs@ == a.jobs@
    &&& b.reactor == a.reactor
    &&& b.intrinsics == a.intrinsics
    &&& b.symbol_counter == a.symbol_counter
}

/// Run the job at the front of the queue, if there is one: it leaves the
/// queue first, then runs as `job_effect` says.
pub fn run_next_job<I: Interpreter>(agent: &mut Agent, host: &mut I) -> (ran: bool)
    requires
        old(agent).wf(),
    ensures
        step(&*old(agent), &*final(agent)),
        ran == (old(agent).jobs@.len() > 0),
        !ran ==> same_state(&*old(agent), &*final(agent)),
        ran ==> exists|m: Agent, r: Result<(), Value>| #![trigger job_effect(m, *final(agent), old(agent).jobs@[0], r)]
            m.heap == old(agent).heap && m.jobs@ == old(agent).jobs@.drop_first()
            && job_effect(m, *final(agent), old(agent).jobs@[0], r),
{
    match agent.jobs.pop_front() {
        Some(job) => {
            let ghost m = *agent;
            let ghost j = job;
            let res = promise_reaction_job(agent, host, job);
            assert(job_effect(m, *agent, j, res));
            true
        },
        None => false,
    }
}

/// Run queued jobs in order, at most `limit` of them, each through
/// `run_next_job`; jobs queued while running join the end of the queue.
/// Returns how many ran.
pub fn run_jobs<I: Interpreter>(agent: &mut Agent, host: &mut I, limit: usize) -> (n: usize)
    requires
        old(agent).wf(),
    ensures
        step(&*old(agent), &*final(agent)),
        n <= limit,
        n < limit ==> final(agent).jobs@.len() == 0,
        limit > 0 && old(agent).jobs@.len() > 0 ==> n >= 1,
        old(agent).jobs@.len() == 0 ==> n == 0 && same_state(&*old(agent), &*final(agent)),
{
    let mut n: usize = 0;
    while n < limit
        invariant
            step(&*old(agent), &*agent),
            n <= limit,
            n == 0 ==> same_state(&*old(agent), &*agent),
            old(agent).jobs@.len() == 0 ==> n == 0,
        decreases limit - n,
    {
        if !run_next_job(agent, host) {
            return n;
        }
        n = n + 1;
    }
    n
}

} // verus!
