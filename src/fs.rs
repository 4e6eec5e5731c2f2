//! The file builtins: each hands its blocking work to the run loop and
//! returns a promise; the completion side settles that promise, or calls a
//! timer's callback.
use vstd::prelude::*;
use crate::agent::{Agent, is_error_with, lemma_error_kept, lemma_agent_evolves_refl, lemma_agent_evolves_trans};
use crate::engine::{call_contract, fresh_capability, reject_function_effect, resolve_function_effect, Interpreter, arg, call_at, new_promise_capability, step, MAX_DEPTH};
use crate::key::{KeyModel, ObjectKey};
use crate::object::{Capability, FileOp, NativeFn, ObjectKind, PromiseState};
use crate::ops::is_callable;
use crate::promise::{promise_in, promise_result};
use crate::reactor::{PendingOp, Request};
use crate::value::{ObjRef, Value};

verus! {

/// A file's type.
#[derive(Clone, Copy, Debug, PartialEq, Eq, Structural)]
pub enum FileType {
    File,
    Directory,
    Symlink,
}

/// File metadata, numbers as IEEE-754 bits: size in bytes, times in
/// milliseconds since the epoch.
#[derive(Debug)]
pub struct Metadata {
    pub file_type: FileType,
    pub size: u64,
    pub modified_at: u64,
    pub accessed_at: u64,
    pub created_at: u64,
    pub readable: bool,
}

/// The outcome of a file operation.
#[derive(Debug)]
pub enum FsResponse {
    Read(String),
    Metadata(Metadata),
    Exists(bool),
    Success,
    Error(String),
}

broadcast use {lemma_agent_evolves_trans, lemma_agent_evolves_refl};

/// How many string operands an operation takes: a path, or a path and
/// contents, or a source and a destination.
pub open spec fn operand_count(op: FileOp) -> nat {
    match op {
        FileOp::WriteFile | FileOp::Copy | FileOp::Move | FileOp::CreateSymbolicLink => 2,
        _ => 1,
    }
}

/// The message for a missing or non-string operand `i`.
pub open spec fn operand_error(op: FileOp, i: nat) -> Seq<char> {
    match op {
        FileOp::WriteFile => if i == 0 { "filename must be a string"@ } else { "contents must be a string"@ },
        FileOp::Copy | FileOp::Move | FileOp::CreateSymbolicLink => if i == 0 { "from must be a string"@ } else { "to must be a string"@ },
        _ => "filename must be a string"@,
    }
}

fn operand_message(op: FileOp, i: usize) -> (m: &'static str)
    ensures
        m@ == operand_error(op, i as nat),
{
    match op {
        FileOp::WriteFile => if i == 0 { "filename must be a string" } else { "contents must be a string" },
        FileOp::Copy | FileOp::Move | FileOp::CreateSymbolicLink => if i == 0 { "from must be a string" } else { "to must be a string" },
        _ => "filename must be a string",
    }
}

fn operand_total(op: FileOp) -> (n: usize)
    ensures
        n == operand_count(op),
{
    match op {
        FileOp::WriteFile | FileOp::Copy | FileOp::Move | FileOp::CreateSymbolicLink => 2,
        _ => 1,
    }
}

/// The first operand that is missing or not a string.
pub open spec fn first_bad_operand(op: FileOp, args: Seq<Value>) -> Option<nat> {
    if !(args.len() > 0 && args[0] is String) {
        Some(0)
    } else if operand_count(op) == 2 && !(args.len() > 1 && args[1] is String) {
        Some(1)
    } else {
        None
    }
}

/// A file operation: operands that are not strings are rejected at once,
/// before any work is scheduled. Otherwise a new promise is returned, a
/// fresh token waits on it, and a request for the run loop is queued.
pub fn file_request<I: Interpreter>(
    agent: &mut Agent,
    host: &mut I,
    op: FileOp,
    args: &Vec<Value>,
    depth: usize,
) -> (r: Result<Value, Value>)
    requires
        old(agent).wf(),
    ensures
        step(&*old(agent), &*final(agent)),
        first_bad_operand(op, args@) matches Some(i) ==> r is Err
            && is_error_with(&*final(agent), r->Err_0, operand_error(op, i)),
        first_bad_operand(op, args@) is Some ==> final(agent).reactor == old(agent).reactor
            && crate::engine::only_allocated(&*old(agent), &*final(agent)),
        first_bad_operand(op, args@) is None && old(agent).reactor.next() < usize::MAX ==> r is Ok,
        r is Ok ==> {
            let ops = final(agent).reactor.pending_ops();
            let reqs = final(agent).reactor.queued();
            &&& first_bad_operand(op, args@) is None
            &&& ops.len() > 0 && ops.last().1 is File && ops.last().1->File_0.promise == r->Ok_0
            &&& crate::engine::fresh_capability(&*final(agent), ops.last().1->File_0)
            &&& reqs.len() > 0 && reqs.last() is File && reqs.last()->File_token == ops.last().0
            &&& reqs.last()->File_op == op
            &&& reqs.last()->File_operands@.len() == operand_count(op)
            &&& forall|i: int| 0 <= i < operand_count(op) ==> reqs.last()->File_operands@[i]@ == args@[i]->String_0@
        },
    decreases depth, 4nat,
{
    let n = operand_total(op);
    let mut operands: Vec<String> = Vec::new();
    let mut i: usize = 0;
    while i < n
        invariant
            agent.wf(),
            *agent == *old(agent),
            n == operand_count(op),
            i <= n,
            operands@.len() == i,
            forall|j: int| 0 <= j < i ==> j < args@.len() && args@[j] is String && operands@[j]@ == args@[j]->String_0@,
        decreases n - i,
    {
        match arg(args, i) {
            Value::String(s) => {
                operands.push(s);
            },
            _ => {
                return Err(agent.new_error(operand_message(op, i)));
            },
        }
        i = i + 1;
    }
    let promise_ctor = Value::Object(agent.intrinsics.promise);
    let capability = new_promise_capability(agent, host, &promise_ctor, depth)?;
    let promise = capability.promise.duplicate();
    match agent.reactor.register(PendingOp::File(capability)) {
        Some(token) => {
            agent.reactor.request(Request::File { token, op, operands });
            Ok(promise)
        },
        None => Err(agent.new_error("no readiness tokens are left")),
    }
}

fn key(s: &str) -> (k: ObjectKey)
    ensures
        k matches ObjectKey::String(t) && t@ == s@,
{
    ObjectKey::String(s.to_owned())
}

/// The fields of a metadata object: `type`, `size`, the three times, and
/// `permissions.read`.
pub open spec fn metadata_fields(a: &Agent, o: ObjRef, m: Metadata) -> bool {
    &&& a.heap.own_m(o, KeyModel::Text("type"@)) matches Some(Value::String(t)) && t@ == (match m.file_type {
        FileType::File => "file"@,
        FileType::Directory => "directory"@,
        FileType::Symlink => "symlink"@,
    })
    &&& a.heap.own_m(o, KeyModel::Text("size"@)) == Some(Value::Number(m.size))
    &&& a.heap.own_m(o, KeyModel::Text("modifiedAt"@)) == Some(Value::Number(m.modified_at))
    &&& a.heap.own_m(o, KeyModel::Text("accessedAt"@)) == Some(Value::Number(m.accessed_at))
    &&& a.heap.own_m(o, KeyModel::Text("createdAt"@)) == Some(Value::Number(m.created_at))
    &&& a.heap.own_m(o, KeyModel::Text("permissions"@)) matches Some(Value::Object(p))
        && a.heap.own_m(p, KeyModel::Text("read"@)) == Some(Value::from_bool_spec(m.readable))
}

/// The metadata object.
fn metadata_object(agent: &mut Agent, m: Metadata) -> (r: Value)
    requires
        old(agent).wf(),
    ensures
        step(&*old(agent), &*final(agent)),
        r is Object && final(agent).heap.valid(r->Object_0),
        metadata_fields(&*final(agent), r->Object_0, m),
        final(agent).heap.kind(r->Object_0) == ObjectKind::Ordinary,
        forall|q: ObjRef| old(agent).heap.valid(q) ==> #[trigger] final(agent).heap.kind(q) == old(agent).heap.kind(q),
        final(agent).jobs@ == old(agent).jobs@,
        final(agent).reactor == old(agent).reactor,
{
    let proto = Value::Object(agent.intrinsics.object_prototype);
    let o = Value::new_object(agent, proto.duplicate());
    let or = match &o {
        Value::Object(r) => *r,
        _ => ObjRef(0),
    };
    let kind_text = match m.file_type {
        FileType::File => "file",
        FileType::Directory => "directory",
        FileType::Symlink => "symlink",
    };
    proof {
        reveal_strlit("type");
        reveal_strlit("size");
        reveal_strlit("modifiedAt");
        reveal_strlit("accessedAt");
        reveal_strlit("createdAt");
        reveal_strlit("permissions");
    }
    let kt = key("type");
    let ks = key("size");
    let km = key("modifiedAt");
    let ka = key("accessedAt");
    let kc = key("createdAt");
    let kp = key("permissions");
    assert(kt.model() != ks.model() && kt.model() != km.model() && kt.model() != ka.model() && kt.model() != kc.model() && kt.model() != kp.model()) by {
        assert(kt.model()->Text_0[0] != ks.model()->Text_0[0]);
        assert(kt.model()->Text_0.len() != km.model()->Text_0.len());
        assert(kt.model()->Text_0.len() != kc.model()->Text_0.len());
        assert(kt.model()->Text_0.len() != kp.model()->Text_0.len());
    }
    assert(ks.model() != km.model() && ks.model() != ka.model() && ks.model() != kc.model() && ks.model() != kp.model()) by {
        assert(ks.model()->Text_0.len() != km.model()->Text_0.len());
        assert(ks.model()->Text_0.len() != kc.model()->Text_0.len());
        assert(ks.model()->Text_0.len() != kp.model()->Text_0.len());
    }
    assert(km.model() != ka.model() && km.model() != kc.model() && km.model() != kp.model()) by {
        assert(km.model()->Text_0[0] != ka.model()->Text_0[0]);
        assert(km.model()->Text_0.len() != kc.model()->Text_0.len());
        assert(km.model()->Text_0.len() != kp.model()->Text_0.len());
    }
    assert(ka.model() != kc.model() && ka.model() != kp.model()) by {
        assert(ka.model()->Text_0.len() != kc.model()->Text_0.len());
        assert(ka.model()->Text_0.len() != kp.model()->Text_0.len());
    }
    assert(kc.model() != kp.model()) by {
        assert(kc.model()->Text_0.len() != kp.model()->Text_0.len());
    }
    let tv = Value::from_str(kind_text);
    agent.put(or, &kt, tv);
    agent.put(or, &ks, Value::Number(m.size));
    agent.put(or, &km, Value::Number(m.modified_at));
    agent.put(or, &ka, Value::Number(m.accessed_at));
    agent.put(or, &kc, Value::Number(m.created_at));
    let ghost before_perm = *agent;
    let n1 = agent.heap.size();
    assert(agent.heap.valid(or));
    let permissions = Value::new_object(agent, proto);
    let ghost after_alloc = *agent;
    let pr = match &permissions {
        Value::Object(r) => *r,
        _ => ObjRef(0),
    };
    let kr = key("read");
    agent.put(pr, &kr, Value::from_bool(m.readable));
    let ghost with_read = *agent;
    agent.put(or, &kp, permissions);
    proof {
        assert(pr.0 == n1);
        assert(or != pr);
        crate::object::lemma_key_id_same(&before_perm.heap, &after_alloc.heap, kt.model());
        crate::object::lemma_key_id_same(&before_perm.heap, &after_alloc.heap, ks.model());
        crate::object::lemma_key_id_same(&before_perm.heap, &after_alloc.heap, km.model());
        crate::object::lemma_key_id_same(&before_perm.heap, &after_alloc.heap, ka.model());
        crate::object::lemma_key_id_same(&before_perm.heap, &after_alloc.heap, kc.model());
        assert(after_alloc.heap.object(or) == before_perm.heap.object(or));
        assert(agent.heap.own(pr, kr) == with_read.heap.own(pr, kr));
        assert(agent.heap.own(or, kt) == with_read.heap.own(or, kt));
        assert(agent.heap.own(or, ks) == with_read.heap.own(or, ks));
        assert(agent.heap.own(or, km) == with_read.heap.own(or, km));
        assert(agent.heap.own(or, ka) == with_read.heap.own(or, ka));
        assert(agent.heap.own(or, kc) == with_read.heap.own(or, kc));
        assert(with_read.heap.own(or, kt) == before_perm.heap.own(or, kt));
        assert(with_read.heap.own(or, ks) == before_perm.heap.own(or, ks));
        assert(with_read.heap.own(or, km) == before_perm.heap.own(or, km));
        assert(with_read.heap.own(or, ka) == before_perm.heap.own(or, ka));
        assert(with_read.heap.own(or, kc) == before_perm.heap.own(or, kc));
    }
    o
}

/// The value a response settles its promise with: the text read, the
/// boolean of `exists`, `Null` for plain success, a metadata object, or an
/// error object whose message is the diagnostic.
pub open spec fn payload_matches(a: &Agent, response: FsResponse, v: Value) -> bool {
    match response {
        FsResponse::Read(s) => v == Value::String(s),
        FsResponse::Exists(b) => v == Value::from_bool_spec(b),
        FsResponse::Success => v == Value::Null,
        FsResponse::Metadata(m) => v is Object && a.heap.valid(v->Object_0) && metadata_fields(a, v->Object_0, m)
            && a.heap.kind(v->Object_0) == ObjectKind::Ordinary,
        FsResponse::Error(m) => is_error_with(a, v, m@),
    }
}

/// How the operation waiting on a token is completed, from state `m` on:
/// a file operation's promise is rejected (on an error) or resolved, with
/// `this` the promise and the payload as the one argument; a timer's
/// callback is called with `this` `Null` and no arguments.
pub open spec fn completed_by(
    m: &Agent,
    b: &Agent,
    op: PendingOp,
    response: FsResponse,
    v: Value,
    r: Result<Value, Value>,
) -> bool {
    match op {
        PendingOp::File(cap) => payload_matches(m, response, v) && call_contract(
            m, b, if response is Error { cap.reject } else { cap.resolve }, cap.promise, seq![v], MAX_DEPTH, r),
        PendingOp::Timer(cb) => call_contract(m, b, cb, Value::Null, Seq::empty(), MAX_DEPTH, r),
    }
}

/// `m` is the state in which the completion is made: later than `a`, with
/// the same jobs and the same kinds for `a`'s objects, and the token no
/// longer waiting.
pub open spec fn completion_state(a: &Agent, m: &Agent, token: usize) -> bool {
    &&& m.wf()
    &&& a.evolves_to(m)
    &&& m.jobs@ == a.jobs@
    &&& !m.reactor.is_pending(token)
    &&& forall|q: ObjRef| a.heap.valid(q) ==> #[trigger] m.heap.kind(q) == a.heap.kind(q)
}

/// How the promise `p` of a completed file operation has settled: fulfilled
/// with the text read, the boolean of `exists`, `Null`, or a metadata
/// object; rejected with an error object carrying the diagnostic.
pub open spec fn settles_as(a: &Agent, p: ObjRef, response: FsResponse) -> bool {
    match response {
        FsResponse::Read(s) => promise_in(a, p, PromiseState::Fulfilled) && promise_result(a, p) == Value::String(s),
        FsResponse::Exists(b) => promise_in(a, p, PromiseState::Fulfilled) && promise_result(a, p) == Value::from_bool_spec(b),
        FsResponse::Success => promise_in(a, p, PromiseState::Fulfilled) && promise_result(a, p) == Value::Null,
        FsResponse::Metadata(_) => promise_in(a, p, PromiseState::Fulfilled) && promise_result(a, p) is Object,
        FsResponse::Error(m) => promise_in(a, p, PromiseState::Rejected) && is_error_with(a, promise_result(a, p), m@),
    }
}

/// How a file operation's outcome settles its promise: whether it rejects,
/// and the value it settles with: the text read, a metadata object, the
/// boolean of `exists`, `Null` for plain success, or an error object whose
/// message is the diagnostic.
pub fn settle_payload(agent: &mut Agent, response: FsResponse) -> (r: (bool, Value))
    requires
        old(agent).wf(),
    ensures
        step(&*old(agent), &*final(agent)),
        r.0 == (response is Error),
        payload_matches(&*final(agent), response, r.1),
        forall|q: ObjRef| old(agent).heap.valid(q) ==> #[trigger] final(agent).heap.kind(q) == old(agent).heap.kind(q),
        final(agent).jobs@ == old(agent).jobs@,
        final(agent).reactor == old(agent).reactor,
        !(response is Metadata || response is Error) ==> *final(agent) == *old(agent),
{
    match response {
        FsResponse::Read(s) => (false, Value::String(s)),
        FsResponse::Metadata(m) => {
            let o = metadata_object(agent, m);
            (false, o)
        },
        FsResponse::Exists(b) => (false, Value::from_bool(b)),
        FsResponse::Success => (false, Value::Null),
        FsResponse::Error(message) => {
            let e = agent.new_error(message.as_str());
            (true, e)
        },
    }
}

/// Deliver the outcome of the file operation waiting on `token`: its
/// promise resolves with the payload (a string, a metadata object, a
/// boolean, or nothing), or rejects with an error object carrying the
/// message. Afterwards nothing waits on the token; a token that was not
/// waiting is left alone.
pub fn handle<I: Interpreter>(agent: &mut Agent, host: &mut I, token: usize, response: FsResponse) -> (r: Result<(), Value>)
    requires
        old(agent).wf(),
    ensures
        step(&*old(agent), &*final(agent)),
        !final(agent).reactor.is_pending(token),
        !old(agent).reactor.is_pending(token) ==> *final(agent) == *old(agent) && r is Ok,
        forall|op: PendingOp| #![trigger old(agent).reactor.pending_ops().contains((token, op))]
            old(agent).reactor.pending_ops().contains((token, op)) ==> exists|m: Agent, v: Value, r2: Result<Value, Value>|
            #[trigger] completed_by(&m, &*final(agent), op, response, v, r2) && completion_state(&*old(agent), &m, token),
        forall|c: Capability| #![trigger old(agent).reactor.pending_ops().contains((token, PendingOp::File(c)))]
            old(agent).reactor.pending_ops().contains((token, PendingOp::File(c))) && fresh_capability(&*old(agent), c)
            ==> settles_as(&*final(agent), c.promise->Object_0, response),
{
    proof {
        if agent.reactor.is_pending(token) {
            agent.reactor.lemma_pending_below(token);
        }
    }
    let cap = match agent.reactor.take(token) {
        Some(PendingOp::File(cap)) => cap,
        Some(PendingOp::Timer(callback)) => {
            let ghost mid = *agent;
            let ghost taken = PendingOp::Timer(callback);
            let args: Vec<Value> = Vec::new();
            let res = call_at(agent, host, &callback, Value::Null, args, MAX_DEPTH);
            proof {
                assert(mid.reactor.evolves_to(&agent.reactor));
                assert(token < mid.reactor.next());
                assert(args@ =~= Seq::<Value>::empty());
                assert(completed_by(&mid, &*agent, taken, response, Value::Null, res));
                assert(completion_state(&*old(agent), &mid, token));
                assert forall|c: Capability| #![trigger old(agent).reactor.pending_ops().contains((token, PendingOp::File(c)))]
                    old(agent).reactor.pending_ops().contains((token, PendingOp::File(c))) && fresh_capability(&*old(agent), c)
                    implies settles_as(&*agent, c.promise->Object_0, response) by {
                    assert(old(agent).reactor.pending_ops().contains((token, taken)));
                    old(agent).reactor.lemma_token_unique(token, PendingOp::File(c), taken);
                }
                assert forall|op: PendingOp| #![trigger old(agent).reactor.pending_ops().contains((token, op))]
                    old(agent).reactor.pending_ops().contains((token, op)) implies exists|m: Agent, v: Value, r2: Result<Value, Value>|
                    #[trigger] completed_by(&m, &*agent, op, response, v, r2) && completion_state(&*old(agent), &m, token) by {
                    let i = choose|i: int| 0 <= i < old(agent).reactor.pending_ops().len()
                        && old(agent).reactor.pending_ops()[i] == (token, taken);
                    assert(old(agent).reactor.pending_ops().contains((token, taken)));
                    old(agent).reactor.lemma_token_unique(token, op, taken);
                }
            }
            return Ok(());
        },
        None => {
            return Ok(());
        },
    };
    let ghost mid = *agent;
    let ghost taken = PendingOp::File(cap);
    let ghost resp = response;
    let (rejects, v) = settle_payload(agent, response);
    let f = if rejects { cap.reject } else { cap.resolve };
    let ghost mid2 = *agent;
    let args = vec![v];
    let result = call_at(agent, host, &f, cap.promise, args, MAX_DEPTH);
    proof {
        assert(mid.reactor.evolves_to(&mid2.reactor));
        assert(mid2.reactor.evolves_to(&agent.reactor));
        assert(token < mid.reactor.next());
        assert(!mid2.reactor.is_pending(token));
        assert(args@ =~= seq![v]);
        assert(completed_by(&mid2, &*agent, taken, resp, v, result));
        assert(completion_state(&*old(agent), &mid2, token));
        if fresh_capability(&*old(agent), cap) {
            let p = cap.promise->Object_0;
            let g = choose|g: ObjRef| #![trigger old(agent).heap.kind(g)]
                old(agent).heap.valid(g) && old(agent).heap.kind(g) == ObjectKind::ResolveGuard(false)
                && old(agent).heap.kind(cap.resolve->Object_0)->BuiltinFunction_0 == (NativeFn::ResolveFunction { promise: p, guard: g })
                && old(agent).heap.kind(cap.reject->Object_0)->BuiltinFunction_0 == (NativeFn::RejectFunction { promise: p, guard: g });
            assert(mid2.heap.kind(g) == old(agent).heap.kind(g));
            assert(mid2.heap.kind(p) == old(agent).heap.kind(p));
            assert(mid2.heap.kind(cap.resolve->Object_0) == old(agent).heap.kind(cap.resolve->Object_0));
            assert(mid2.heap.kind(cap.reject->Object_0) == old(agent).heap.kind(cap.reject->Object_0));
            assert(is_callable(&mid2, f));
            if resp is Error {
                assert(reject_function_effect(&mid2, &*agent, p, g, v, result));
                lemma_error_kept(&mid2, &*agent, v, resp->Error_0@);
            } else {
                assert(resolve_function_effect(&mid2, &*agent, p, g, v, result));
            }
            assert(settles_as(&*agent, p, resp));
        }
        assert forall|c: Capability| #![trigger old(agent).reactor.pending_ops().contains((token, PendingOp::File(c)))]
            old(agent).reactor.pending_ops().contains((token, PendingOp::File(c))) && fresh_capability(&*old(agent), c)
            implies settles_as(&*agent, c.promise->Object_0, resp) by {
            assert(old(agent).reactor.pending_ops().contains((token, taken)));
            old(agent).reactor.lemma_token_unique(token, PendingOp::File(c), taken);
        }
        assert forall|op: PendingOp| #![trigger old(agent).reactor.pending_ops().contains((token, op))]
            old(agent).reactor.pending_ops().contains((token, op)) implies exists|m: Agent, v2: Value, r2: Result<Value, Value>|
            #[trigger] completed_by(&m, &*agent, op, resp, v2, r2) && completion_state(&*old(agent), &m, token) by {
            let i = choose|i: int| 0 <= i < old(agent).reactor.pending_ops().len()
                && old(agent).reactor.pending_ops()[i] == (token, taken);
            assert(old(agent).reactor.pending_ops().contains((token, taken)));
            old(agent).reactor.lemma_token_unique(token, op, taken);
        }
    }
    match result {
        Ok(_) => Ok(()),
        Err(e) => Err(e),
    }
}

/// The timer waiting on `token` has expired: its callback is called with
/// no arguments, and nothing waits on the token afterwards.
pub fn fire_timer<I: Interpreter>(agent: &mut Agent, host: &mut I, token: usize) -> (r: Result<(), Value>)
    requires
        old(agent).wf(),
    ensures
        step(&*old(agent), &*final(agent)),
        !final(agent).reactor.is_pending(token),
        !old(agent).reactor.is_pending(token) ==> *final(agent) == *old(agent) && r is Ok,
        forall|op: PendingOp| #![trigger old(agent).reactor.pending_ops().contains((token, op))]
            old(agent).reactor.pending_ops().contains((token, op)) && op is Timer ==> exists|m: Agent, v: Value, r2: Result<Value, Value>|
            #[trigger] completed_by(&m, &*final(agent), op, FsResponse::Success, v, r2) && completion_state(&*old(agent), &m, token),
{
    handle(agent, host, token, FsResponse::Success)
}

/// The module object of the file builtins, as name and function pairs.
pub fn create(agent: &mut Agent) -> (m: Vec<(String, Value)>)
    requires
        old(agent).wf(),
    ensures
        step(&*old(agent), &*final(agent)),
        m@.len() == 10,
{
    let mut m: Vec<(String, Value)> = Vec::new();
    let names = ["readFile", "writeFile", "removeFile", "getMetadata", "copy", "move", "createSymbolicLink", "exists", "createDirectory", "removeDirectory"];
    let ops = [FileOp::ReadFile, FileOp::WriteFile, FileOp::RemoveFile, FileOp::GetMetadata, FileOp::Copy, FileOp::Move, FileOp::CreateSymbolicLink, FileOp::Exists, FileOp::CreateDirectory, FileOp::RemoveDirectory];
    let mut i: usize = 0;
    while i < 10
        invariant
            step(&*old(agent), &*agent),
            i <= 10,
            m@.len() == i,
        decreases 10 - i,
    {
        let f = Value::new_builtin_function(agent, NativeFn::FileOp(ops[i]));
        m.push((names[i].to_owned(), f));
        i = i + 1;
    }
    m
}

} // verus!
