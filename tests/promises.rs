use ratchet_core::agent::Agent;
use ratchet_core::engine::{run_jobs, Completion, Frame, Interpreter, Operation};
use ratchet_core::key::ObjectKey;
use ratchet_core::object::{Discipline, FunctionInfo, PromiseState};
use ratchet_core::promise::promise_status;
use ratchet_core::value::Value;

/// A stand-in interpreter: the body at position `p` is `bodies[p]`, and each
/// run is logged with its position and arguments.
struct Script {
    bodies: Vec<fn(Vec<Value>) -> Completion>,
    log: Vec<(usize, Vec<Value>)>,
}

impl Interpreter for Script {
    fn run(&mut self, _agent: &Agent, frame: Frame) -> Completion {
        let args: Vec<Value> = frame.bindings.iter().map(|(_, v)| v.clone()).collect();
        self.log.push((frame.position, args.clone()));
        (self.bodies[frame.position])(args)
    }

    fn start_suspended(&mut self, _agent: &Agent, frame: Frame) -> usize {
        frame.position
    }

    fn resume(&mut self, _agent: &Agent, _continuation: usize, input: Result<Value, Value>) -> Completion {
        match input {
            Ok(v) => Completion::Return(v),
            Err(e) => Completion::Throw(e),
        }
    }

    fn call_native(&mut self, _agent: &Agent, id: u64, _this: Value, _arguments: Vec<Value>) -> Completion {
        if id == 7 {
            Completion::Request(60, Operation::NewObject { prototype: Value::Null })
        } else {
            Completion::Return(Value::Null)
        }
    }
}

fn num(x: f64) -> Value {
    Value::Number(x.to_bits())
}

fn as_num(v: &Value) -> f64 {
    match v {
        Value::Number(b) => f64::from_bits(*b),
        other => panic!("not a number: {:?}", other),
    }
}

fn plus_one(args: Vec<Value>) -> Completion {
    Completion::Return(num(as_num(&args[0]) + 1.0))
}

fn times_two(args: Vec<Value>) -> Completion {
    Completion::Return(num(as_num(&args[0]) * 2.0))
}

fn return_nothing(_args: Vec<Value>) -> Completion {
    Completion::Return(Value::Null)
}

fn throw_arg(args: Vec<Value>) -> Completion {
    Completion::Throw(args[0].clone())
}

fn await_arg(args: Vec<Value>) -> Completion {
    Completion::Suspend(7, args[0].clone())
}

fn resolve_with_one(args: Vec<Value>) -> Completion {
    Completion::Request(50, Operation::Call { function: args[0].clone(), this: Value::Null, arguments: vec![num(1.0)] })
}

fn script() -> Script {
    Script { bodies: vec![plus_one, times_two, return_nothing, throw_arg, await_arg, resolve_with_one], log: Vec::new() }
}

fn function(agent: &mut Agent, position: usize) -> Value {
    let info = FunctionInfo {
        discipline: Discipline::Normal,
        arrow: true,
        parameters: vec!["x".to_string()],
        position,
        scope: 0,
    };
    Value::new_bytecode_function(agent, info)
}

fn key(s: &str) -> ObjectKey {
    ObjectKey::String(s.to_string())
}

fn promise_ctor(agent: &Agent) -> Value {
    Value::Object(agent.intrinsics.promise)
}

fn resolved(agent: &mut Agent, host: &mut Script, v: Value) -> Value {
    let ctor = promise_ctor(agent);
    let resolve = ctor.get(agent, &key("resolve")).unwrap();
    resolve.call(agent, host, ctor, vec![v]).unwrap()
}

fn then(agent: &mut Agent, host: &mut Script, p: &Value, args: Vec<Value>) -> Value {
    let f = p.get(agent, &key("then")).unwrap();
    f.call(agent, host, p.clone(), args).unwrap()
}

fn status(agent: &Agent, p: &Value) -> (PromiseState, Value) {
    promise_status(agent, p).expect("a promise")
}

#[test]
fn chained_then_runs_each_handler_in_its_own_job() {
    let mut agent = Agent::new();
    let mut host = script();
    let p = resolved(&mut agent, &mut host, num(1.0));
    let f1 = function(&mut agent, 0);
    let f2 = function(&mut agent, 1);
    let p2 = then(&mut agent, &mut host, &p, vec![f1]);
    let p3 = then(&mut agent, &mut host, &p2, vec![f2]);
    assert!(host.log.is_empty());
    assert_eq!(run_jobs(&mut agent, &mut host, 1), 1);
    assert_eq!(host.log.len(), 1);
    assert_eq!(host.log[0].0, 0);
    assert_eq!(run_jobs(&mut agent, &mut host, 1), 1);
    assert_eq!(host.log.len(), 2);
    assert_eq!(host.log[1].0, 1);
    run_jobs(&mut agent, &mut host, 100);
    let (state, result) = status(&agent, &p3);
    assert_eq!(state, PromiseState::Fulfilled);
    assert_eq!(as_num(&result), 4.0);
}

#[test]
fn then_on_fulfilled_promise_defers_to_a_job() {
    let mut agent = Agent::new();
    let mut host = script();
    let p = resolved(&mut agent, &mut host, num(5.0));
    assert_eq!(status(&agent, &p).0, PromiseState::Fulfilled);
    let f1 = function(&mut agent, 0);
    let before = agent.jobs.len();
    let p2 = then(&mut agent, &mut host, &p, vec![f1]);
    assert!(host.log.is_empty());
    assert_eq!(agent.jobs.len(), before + 1);
    assert_eq!(status(&agent, &p2).0, PromiseState::Pending);
    run_jobs(&mut agent, &mut host, 10);
    assert_eq!(host.log.len(), 1);
    assert_eq!(as_num(&status(&agent, &p2).1), 6.0);
}

#[test]
fn then_on_pending_promise_waits_for_settlement() {
    let mut agent = Agent::new();
    let mut host = script();
    let ctor = promise_ctor(&agent);
    let exec = function(&mut agent, 2);
    let p = ctor.construct(&mut agent, &mut host, vec![exec], ctor.clone()).unwrap();
    assert_eq!(status(&agent, &p).0, PromiseState::Pending);
    let f1 = function(&mut agent, 0);
    let p2 = then(&mut agent, &mut host, &p, vec![f1]);
    run_jobs(&mut agent, &mut host, 10);
    assert_eq!(host.log.len(), 1);
    assert_eq!(status(&agent, &p2).0, PromiseState::Pending);
}

#[test]
fn non_function_handlers_pass_values_through() {
    let mut agent = Agent::new();
    let mut host = script();
    let p = resolved(&mut agent, &mut host, num(7.0));
    let p2 = then(&mut agent, &mut host, &p, vec![Value::Null, Value::Null]);
    run_jobs(&mut agent, &mut host, 10);
    let (state, result) = status(&agent, &p2);
    assert_eq!(state, PromiseState::Fulfilled);
    assert_eq!(as_num(&result), 7.0);
}

#[test]
fn rejected_promise_reaches_catch_handler() {
    let mut agent = Agent::new();
    let mut host = script();
    let ctor = promise_ctor(&agent);
    let reject = ctor.get(&mut agent, &key("reject")).unwrap();
    let p = reject.call(&mut agent, &mut host, ctor, vec![num(3.0)]).unwrap();
    assert_eq!(status(&agent, &p).0, PromiseState::Rejected);
    let f1 = function(&mut agent, 0);
    let catch = p.get(&mut agent, &key("catch")).unwrap();
    let p2 = catch.call(&mut agent, &mut host, p.clone(), vec![f1]).unwrap();
    run_jobs(&mut agent, &mut host, 10);
    let (state, result) = status(&agent, &p2);
    assert_eq!(state, PromiseState::Fulfilled);
    assert_eq!(as_num(&result), 4.0);
}

#[test]
fn finally_keeps_the_fulfillment_value() {
    let mut agent = Agent::new();
    let mut host = script();
    let p = resolved(&mut agent, &mut host, num(9.0));
    let on_finally = function(&mut agent, 2);
    let finally = p.get(&mut agent, &key("finally")).unwrap();
    let p2 = finally.call(&mut agent, &mut host, p.clone(), vec![on_finally]).unwrap();
    run_jobs(&mut agent, &mut host, 100);
    let runs = host.log.iter().filter(|(pos, _)| *pos == 2).count();
    assert_eq!(runs, 1);
    assert!(host.log.iter().all(|(_, args)| args.iter().all(|a| *a == Value::Null)));
    let (state, result) = status(&agent, &p2);
    assert_eq!(state, PromiseState::Fulfilled);
    assert_eq!(as_num(&result), 9.0);
}

#[test]
fn finally_keeps_the_rejection_reason() {
    let mut agent = Agent::new();
    let mut host = script();
    let ctor = promise_ctor(&agent);
    let reject = ctor.get(&mut agent, &key("reject")).unwrap();
    let p = reject.call(&mut agent, &mut host, ctor, vec![num(2.0)]).unwrap();
    let on_finally = function(&mut agent, 2);
    let finally = p.get(&mut agent, &key("finally")).unwrap();
    let p2 = finally.call(&mut agent, &mut host, p.clone(), vec![on_finally]).unwrap();
    run_jobs(&mut agent, &mut host, 100);
    assert_eq!(host.log.iter().filter(|(pos, _)| *pos == 2).count(), 1);
    let (state, result) = status(&agent, &p2);
    assert_eq!(state, PromiseState::Rejected);
    assert_eq!(as_num(&result), 2.0);
}

#[test]
fn resolving_with_itself_rejects() {
    let mut agent = Agent::new();
    let mut host = script();
    let ctor = promise_ctor(&agent);
    let exec = function(&mut agent, 2);
    let p = ctor.construct(&mut agent, &mut host, vec![exec], ctor.clone()).unwrap();
    // The executor ignored its arguments; take the resolving pair through a
    // capability instead, by resolving a fresh promise with itself.
    let cap = ratchet_core::engine::new_promise_capability(&mut agent, &mut host, &ctor, 64).unwrap();
    let promise = cap.promise.clone();
    cap.resolve.call(&mut agent, &mut host, Value::Null, vec![promise.clone()]).unwrap();
    let (state, reason) = status(&agent, &promise);
    assert_eq!(state, PromiseState::Rejected);
    let message = reason.get(&mut agent, &key("message")).unwrap();
    assert_eq!(message, Value::String("cannot resolve a promise with itself".to_string()));
    assert_eq!(status(&agent, &p).0, PromiseState::Pending);
}

#[test]
fn resolving_pair_fires_once() {
    let mut agent = Agent::new();
    let mut host = script();
    let ctor = promise_ctor(&agent);
    let cap = ratchet_core::engine::new_promise_capability(&mut agent, &mut host, &ctor, 64).unwrap();
    cap.resolve.call(&mut agent, &mut host, Value::Null, vec![num(1.0)]).unwrap();
    cap.reject.call(&mut agent, &mut host, Value::Null, vec![num(2.0)]).unwrap();
    cap.resolve.call(&mut agent, &mut host, Value::Null, vec![num(3.0)]).unwrap();
    let (state, result) = status(&agent, &cap.promise);
    assert_eq!(state, PromiseState::Fulfilled);
    assert_eq!(as_num(&result), 1.0);
}

#[test]
fn reject_first_wins_over_later_resolve() {
    let mut agent = Agent::new();
    let mut host = script();
    let ctor = promise_ctor(&agent);
    let cap = ratchet_core::engine::new_promise_capability(&mut agent, &mut host, &ctor, 64).unwrap();
    cap.reject.call(&mut agent, &mut host, Value::Null, vec![num(2.0)]).unwrap();
    cap.resolve.call(&mut agent, &mut host, Value::Null, vec![num(3.0)]).unwrap();
    let (state, result) = status(&agent, &cap.promise);
    assert_eq!(state, PromiseState::Rejected);
    assert_eq!(as_num(&result), 2.0);
}

#[test]
fn executor_must_be_a_function() {
    let mut agent = Agent::new();
    let mut host = script();
    let ctor = promise_ctor(&agent);
    let err = ctor.construct(&mut agent, &mut host, vec![num(1.0)], ctor.clone()).unwrap_err();
    let message = err.get(&mut agent, &key("message")).unwrap();
    assert_eq!(message, Value::String("executor must be a function".to_string()));
}

#[test]
fn throwing_executor_rejects() {
    let mut agent = Agent::new();
    let mut host = script();
    let ctor = promise_ctor(&agent);
    let exec = function(&mut agent, 3);
    let p = ctor.construct(&mut agent, &mut host, vec![exec], ctor.clone()).unwrap();
    let (state, _) = status(&agent, &p);
    assert_eq!(state, PromiseState::Rejected);
}

#[test]
fn calling_a_non_function_fails() {
    let mut agent = Agent::new();
    let mut host = script();
    let err = num(1.0).call(&mut agent, &mut host, Value::Null, vec![]).unwrap_err();
    let message = err.get(&mut agent, &key("message")).unwrap();
    assert_eq!(message, Value::String("value is not a function".to_string()));
}

#[test]
fn arrow_functions_are_not_constructors() {
    let mut agent = Agent::new();
    let mut host = script();
    let f = function(&mut agent, 0);
    let err = f.construct(&mut agent, &mut host, vec![], f.clone()).unwrap_err();
    let message = err.get(&mut agent, &key("message")).unwrap();
    assert_eq!(message, Value::String("value is not a constructor".to_string()));
}

#[test]
fn missing_arguments_bind_to_null() {
    let mut agent = Agent::new();
    let mut host = script();
    let f = function(&mut agent, 2);
    f.call(&mut agent, &mut host, Value::Null, vec![]).unwrap();
    assert_eq!(host.log[0].1, vec![Value::Null]);
}

#[test]
fn async_function_returns_a_settled_promise() {
    let mut agent = Agent::new();
    let mut host = script();
    let info = FunctionInfo {
        discipline: Discipline::Async,
        arrow: false,
        parameters: vec!["x".to_string()],
        position: 0,
        scope: 0,
    };
    let f = Value::new_bytecode_function(&mut agent, info);
    let p = f.call(&mut agent, &mut host, Value::Null, vec![num(1.0)]).unwrap();
    let (state, result) = status(&agent, &p);
    assert_eq!(state, PromiseState::Fulfilled);
    assert_eq!(as_num(&result), 2.0);
}

#[test]
fn generator_call_does_not_run_the_body() {
    let mut agent = Agent::new();
    let mut host = script();
    let info = FunctionInfo {
        discipline: Discipline::Generator,
        arrow: false,
        parameters: vec![],
        position: 0,
        scope: 0,
    };
    let f = Value::new_bytecode_function(&mut agent, info);
    let g = f.call(&mut agent, &mut host, Value::Null, vec![]).unwrap();
    assert!(host.log.is_empty());
    assert!(g.has_slot(&agent, "generator context"));
    assert_eq!(g.get_slot(&agent, "generator context"), Value::WrappedContinuation(0, None));
}

#[test]
fn async_function_resumes_after_await() {
    let mut agent = Agent::new();
    let mut host = script();
    let info = FunctionInfo {
        discipline: Discipline::Async,
        arrow: false,
        parameters: vec!["x".to_string()],
        position: 4,
        scope: 0,
    };
    let f = Value::new_bytecode_function(&mut agent, info);
    let p = f.call(&mut agent, &mut host, Value::Null, vec![num(5.0)]).unwrap();
    assert_eq!(status(&agent, &p).0, PromiseState::Pending);
    run_jobs(&mut agent, &mut host, 100);
    let (state, result) = status(&agent, &p);
    assert_eq!(state, PromiseState::Fulfilled);
    assert_eq!(as_num(&result), 5.0);
}

fn message(agent: &mut Agent, err: Value) -> Value {
    err.get(agent, &key("message")).unwrap()
}

#[test]
fn static_resolve_needs_an_object_this() {
    let mut agent = Agent::new();
    let mut host = script();
    let ctor = promise_ctor(&agent);
    let resolve = ctor.get(&mut agent, &key("resolve")).unwrap();
    let err = resolve.call(&mut agent, &mut host, Value::Null, vec![num(1.0)]).unwrap_err();
    assert_eq!(message(&mut agent, err), Value::String("this must be an object".to_string()));
    let reject = ctor.get(&mut agent, &key("reject")).unwrap();
    let err = reject.call(&mut agent, &mut host, Value::Null, vec![num(1.0)]).unwrap_err();
    assert_eq!(message(&mut agent, err), Value::String("this must be an object".to_string()));
}

#[test]
fn then_on_a_non_promise_fails() {
    let mut agent = Agent::new();
    let mut host = script();
    let proto = Value::Object(agent.intrinsics.promise_prototype);
    let then_fn = proto.get(&mut agent, &key("then")).unwrap();
    let plain = Value::new_object(&mut agent, Value::Null);
    let err = then_fn.call(&mut agent, &mut host, plain, vec![]).unwrap_err();
    assert_eq!(message(&mut agent, err), Value::String("this is not a promise".to_string()));
}

#[test]
fn finally_checks_this_and_its_constructor() {
    let mut agent = Agent::new();
    let mut host = script();
    let proto = Value::Object(agent.intrinsics.promise_prototype);
    let finally = proto.get(&mut agent, &key("finally")).unwrap();
    let err = finally.call(&mut agent, &mut host, Value::Null, vec![]).unwrap_err();
    assert_eq!(message(&mut agent, err), Value::String("invalid this".to_string()));
    let plain = Value::new_object(&mut agent, Value::Null);
    let err = finally.call(&mut agent, &mut host, plain, vec![]).unwrap_err();
    assert_eq!(message(&mut agent, err), Value::String("this does not derive a valid constructor".to_string()));
}

#[test]
fn capability_executor_refuses_a_second_capture() {
    let mut agent = Agent::new();
    let mut host = script();
    let exec = Value::new_builtin_function(
        &mut agent,
        ratchet_core::object::NativeFn::CapabilityExecutor { resolve: Value::Null, reject: Value::Null },
    );
    let f = function(&mut agent, 2);
    exec.call(&mut agent, &mut host, Value::Null, vec![f.clone(), f.clone()]).unwrap();
    let err = exec.call(&mut agent, &mut host, Value::Null, vec![f.clone(), f]).unwrap_err();
    assert_eq!(message(&mut agent, err), Value::String("type error".to_string()));
}

#[test]
fn error_to_string_needs_a_string_name() {
    let mut agent = Agent::new();
    let mut host = script();
    let proto = Value::Object(agent.intrinsics.error_prototype);
    let to_string = proto.get(&mut agent, &key("toString")).unwrap();
    let plain = Value::new_object(&mut agent, Value::Null);
    let err = to_string.call(&mut agent, &mut host, plain, vec![]).unwrap_err();
    assert_eq!(message(&mut agent, err), Value::String("Invalid error object".to_string()));
    let named = Value::new_object(&mut agent, Value::Null);
    named.set(&mut agent, &key("name"), Value::String("Oops".to_string())).unwrap();
    let text = to_string.call(&mut agent, &mut host, named, vec![]).unwrap();
    assert_eq!(text, Value::String("Oops".to_string()));
}

#[test]
fn symbols_cannot_be_boxed_as_this() {
    let mut agent = Agent::new();
    let mut host = script();
    let sym = Value::new_symbol(&mut agent, None);
    let f = Value::new_builtin_function(&mut agent, ratchet_core::object::NativeFn::ReturnThis);
    let err = f.call(&mut agent, &mut host, sym, vec![]).unwrap_err();
    assert_eq!(message(&mut agent, err), Value::String("cannot convert to object".to_string()));
    let boxed = f.call(&mut agent, &mut host, num(2.0), vec![]).unwrap();
    assert_eq!(boxed.type_of(&agent), "object");
}

#[test]
fn normal_bodies_may_not_suspend() {
    let mut agent = Agent::new();
    let mut host = script();
    let f = function(&mut agent, 4);
    let err = f.call(&mut agent, &mut host, Value::Null, vec![num(1.0)]).unwrap_err();
    assert_eq!(message(&mut agent, err), Value::String("a normal function cannot suspend".to_string()));
}

#[test]
fn deep_recursion_is_cut_off() {
    let mut agent = Agent::new();
    let mut host = script();
    let f = function(&mut agent, 0);
    let err = ratchet_core::engine::call_at(&mut agent, &mut host, &f, Value::Null, vec![num(1.0)], 0).unwrap_err();
    assert_eq!(message(&mut agent, err), Value::String("maximum call depth exceeded".to_string()));
}

#[test]
fn construct_takes_a_function_valued_prototype() {
    let mut agent = Agent::new();
    let mut host = script();
    let info = FunctionInfo {
        discipline: Discipline::Normal,
        arrow: false,
        parameters: vec![],
        position: 2,
        scope: 0,
    };
    let f = Value::new_bytecode_function(&mut agent, info);
    let g = function(&mut agent, 0);
    g.set(&mut agent, &key("marker"), num(1.0)).unwrap();
    f.set(&mut agent, &key("prototype"), g.clone()).unwrap();
    let o = f.construct(&mut agent, &mut host, vec![], f.clone()).unwrap();
    assert_eq!(o.type_of(&agent), "object");
    assert_eq!(o.get(&mut agent, &key("marker")).unwrap(), num(1.0));
}

#[test]
fn construct_falls_back_to_the_object_prototype() {
    let mut agent = Agent::new();
    let mut host = script();
    let info = FunctionInfo {
        discipline: Discipline::Normal,
        arrow: false,
        parameters: vec![],
        position: 2,
        scope: 0,
    };
    let f = Value::new_bytecode_function(&mut agent, info);
    f.set(&mut agent, &key("prototype"), num(3.0)).unwrap();
    let op = Value::Object(agent.intrinsics.object_prototype);
    op.set(&mut agent, &key("base"), Value::True).unwrap();
    let o = f.construct(&mut agent, &mut host, vec![], f.clone()).unwrap();
    assert_eq!(o.get(&mut agent, &key("base")).unwrap(), Value::True);
}

#[test]
fn generator_functions_are_not_constructors() {
    let mut agent = Agent::new();
    let mut host = script();
    let info = FunctionInfo {
        discipline: Discipline::Generator,
        arrow: false,
        parameters: vec![],
        position: 0,
        scope: 0,
    };
    let f = Value::new_bytecode_function(&mut agent, info);
    let err = f.construct(&mut agent, &mut host, vec![], f.clone()).unwrap_err();
    assert_eq!(message(&mut agent, err), Value::String("value is not a constructor".to_string()));
}

#[test]
fn executor_resolves_through_a_request() {
    let mut agent = Agent::new();
    let mut host = script();
    let ctor = promise_ctor(&agent);
    let info = FunctionInfo {
        discipline: Discipline::Normal,
        arrow: true,
        parameters: vec!["resolve".to_string(), "reject".to_string()],
        position: 5,
        scope: 0,
    };
    let exec = Value::new_bytecode_function(&mut agent, info);
    let p = ctor.construct(&mut agent, &mut host, vec![exec], ctor.clone()).unwrap();
    let (state, result) = status(&agent, &p);
    assert_eq!(state, PromiseState::Fulfilled);
    assert_eq!(as_num(&result), 1.0);
}

#[test]
fn host_natives_allocate_through_requests() {
    let mut agent = Agent::new();
    let mut host = script();
    let f = Value::new_builtin_function(&mut agent, ratchet_core::object::NativeFn::Host(7));
    let before = agent.heap.size();
    let o = f.call(&mut agent, &mut host, Value::Null, vec![]).unwrap();
    assert_eq!(o.type_of(&agent), "object");
    assert!(agent.heap.size() > before);
}
