use ratchet_core::agent::Agent;
use ratchet_core::fs::{create as create_fs_module, fire_timer, handle, FileType, FsResponse, Metadata};
use ratchet_core::timers::create as create_timers_module;
use ratchet_core::engine::{run_jobs, Completion, Frame, Interpreter};
use ratchet_core::key::ObjectKey;
use ratchet_core::object::{Discipline, FileOp, FunctionInfo, PromiseState};
use ratchet_core::promise::promise_status;
use ratchet_core::reactor::Request;
use ratchet_core::value::Value;

struct Recorder {
    calls: Vec<Vec<Value>>,
}

impl Interpreter for Recorder {
    fn run(&mut self, _agent: &Agent, frame: Frame) -> Completion {
        self.calls.push(frame.bindings.iter().map(|(_, v)| v.clone()).collect());
        Completion::Return(Value::Null)
    }

    fn start_suspended(&mut self, _agent: &Agent, _frame: Frame) -> usize {
        0
    }

    fn resume(&mut self, _agent: &Agent, _continuation: usize, _input: Result<Value, Value>) -> Completion {
        Completion::Return(Value::Null)
    }

    fn call_native(&mut self, _agent: &Agent, _id: u64, _this: Value, _arguments: Vec<Value>) -> Completion {
        Completion::Return(Value::Null)
    }
}

fn key(s: &str) -> ObjectKey {
    ObjectKey::String(s.to_string())
}

fn string(s: &str) -> Value {
    Value::String(s.to_string())
}

fn module_fn(m: &[(String, Value)], name: &str) -> Value {
    m.iter().find(|(n, _)| n == name).map(|(_, v)| v.clone()).expect("a module function")
}

/// What the run loop would do: take the next request and answer it.
fn next_file_request(agent: &mut Agent) -> (usize, FileOp, Vec<String>) {
    match agent.reactor.next_request() {
        Some(Request::File { token, op, operands }) => (token, op, operands),
        other => panic!("expected a file request, got {:?}", other),
    }
}

#[test]
fn create_timeout_calls_back_with_no_arguments() {
    let mut agent = Agent::new();
    let mut host = Recorder { calls: Vec::new() };
    let timers = create_timers_module(&mut agent);
    let create_timeout = module_fn(&timers, "createTimeout");
    let info = FunctionInfo {
        discipline: Discipline::Normal,
        arrow: true,
        parameters: vec!["a".to_string()],
        position: 0,
        scope: 0,
    };
    let cb = Value::new_bytecode_function(&mut agent, info);
    let r = create_timeout
        .call(&mut agent, &mut host, Value::Null, vec![cb, Value::Number(0f64.to_bits())])
        .unwrap();
    assert_eq!(r, Value::Null);
    assert!(host.calls.is_empty());
    let token = match agent.reactor.next_request() {
        Some(Request::Timer { token, duration }) => {
            assert_eq!(f64::from_bits(duration), 0.0);
            token
        },
        other => panic!("expected a timer request, got {:?}", other),
    };
    fire_timer(&mut agent, &mut host, token).unwrap();
    assert_eq!(host.calls, vec![vec![Value::Null]]);
    fire_timer(&mut agent, &mut host, token).unwrap();
    assert_eq!(host.calls.len(), 1);
}

#[test]
fn create_timeout_checks_its_arguments() {
    let mut agent = Agent::new();
    let mut host = Recorder { calls: Vec::new() };
    let timers = create_timers_module(&mut agent);
    let create_timeout = module_fn(&timers, "createTimeout");
    let err = create_timeout
        .call(&mut agent, &mut host, Value::Null, vec![Value::Null, Value::Number(0)])
        .unwrap_err();
    assert_eq!(err.get(&mut agent, &key("message")).unwrap(), string("callback must be a function"));
    let err = create_timeout
        .call(&mut agent, &mut host, Value::Null, vec![create_timeout.clone(), string("soon")])
        .unwrap_err();
    assert_eq!(err.get(&mut agent, &key("message")).unwrap(), string("duration must be a number"));
}

#[test]
fn read_of_a_missing_file_rejects_with_the_os_text() {
    let mut agent = Agent::new();
    let mut host = Recorder { calls: Vec::new() };
    let fs = create_fs_module(&mut agent);
    let read_file = module_fn(&fs, "readFile");
    let p = read_file.call(&mut agent, &mut host, Value::Null, vec![string("missing.txt")]).unwrap();
    assert_eq!(promise_status(&agent, &p).unwrap().0, PromiseState::Pending);
    let (token, op, operands) = next_file_request(&mut agent);
    assert_eq!(op, FileOp::ReadFile);
    assert_eq!(operands, vec!["missing.txt".to_string()]);
    handle(&mut agent, &mut host, token, FsResponse::Error("No such file or directory (os error 2)".to_string())).unwrap();
    run_jobs(&mut agent, &mut host, 10);
    let (state, reason) = promise_status(&agent, &p).unwrap();
    assert_eq!(state, PromiseState::Rejected);
    match reason.get(&mut agent, &key("message")).unwrap() {
        Value::String(m) => assert!(m.contains("No such file or directory")),
        other => panic!("unexpected {:?}", other),
    }
}

#[test]
fn write_then_read_gives_the_contents_back() {
    let mut agent = Agent::new();
    let mut host = Recorder { calls: Vec::new() };
    let fs = create_fs_module(&mut agent);
    let write_file = module_fn(&fs, "writeFile");
    let read_file = module_fn(&fs, "readFile");
    let w = write_file.call(&mut agent, &mut host, Value::Null, vec![string("a.txt"), string("hi")]).unwrap();
    let (token, op, operands) = next_file_request(&mut agent);
    assert_eq!(op, FileOp::WriteFile);
    assert_eq!(operands, vec!["a.txt".to_string(), "hi".to_string()]);
    handle(&mut agent, &mut host, token, FsResponse::Success).unwrap();
    assert_eq!(promise_status(&agent, &w).unwrap().0, PromiseState::Fulfilled);
    let r = read_file.call(&mut agent, &mut host, Value::Null, vec![string("a.txt")]).unwrap();
    let (token, _, _) = next_file_request(&mut agent);
    handle(&mut agent, &mut host, token, FsResponse::Read("hi".to_string())).unwrap();
    let (state, result) = promise_status(&agent, &r).unwrap();
    assert_eq!(state, PromiseState::Fulfilled);
    assert_eq!(result, string("hi"));
}

#[test]
fn file_operations_reject_non_string_operands_at_once() {
    let mut agent = Agent::new();
    let mut host = Recorder { calls: Vec::new() };
    let fs = create_fs_module(&mut agent);
    let cases = [
        ("readFile", vec![Value::Null], "filename must be a string"),
        ("writeFile", vec![string("a"), Value::Null], "contents must be a string"),
        ("copy", vec![Value::Null, string("b")], "from must be a string"),
        ("move", vec![string("a")], "to must be a string"),
        ("createSymbolicLink", vec![string("a"), Value::True], "to must be a string"),
        ("exists", vec![], "filename must be a string"),
    ];
    for (name, args, message) in cases {
        let f = module_fn(&fs, name);
        let err = f.call(&mut agent, &mut host, Value::Null, args).unwrap_err();
        assert_eq!(err.get(&mut agent, &key("message")).unwrap(), string(message));
    }
    assert!(agent.reactor.next_request().is_none());
}

#[test]
fn metadata_becomes_a_plain_object() {
    let mut agent = Agent::new();
    let mut host = Recorder { calls: Vec::new() };
    let fs = create_fs_module(&mut agent);
    let get_metadata = module_fn(&fs, "getMetadata");
    let p = get_metadata.call(&mut agent, &mut host, Value::Null, vec![string("a.txt")]).unwrap();
    let (token, op, _) = next_file_request(&mut agent);
    assert_eq!(op, FileOp::GetMetadata);
    let m = Metadata {
        file_type: FileType::Directory,
        size: 42f64.to_bits(),
        modified_at: 1000f64.to_bits(),
        accessed_at: 2000f64.to_bits(),
        created_at: 3000f64.to_bits(),
        readable: true,
    };
    handle(&mut agent, &mut host, token, FsResponse::Metadata(m)).unwrap();
    let (state, o) = promise_status(&agent, &p).unwrap();
    assert_eq!(state, PromiseState::Fulfilled);
    assert_eq!(o.get(&mut agent, &key("type")).unwrap(), string("directory"));
    assert_eq!(o.get(&mut agent, &key("size")).unwrap(), Value::Number(42f64.to_bits()));
    assert_eq!(o.get(&mut agent, &key("createdAt")).unwrap(), Value::Number(3000f64.to_bits()));
    let perms = o.get(&mut agent, &key("permissions")).unwrap();
    assert_eq!(perms.get(&mut agent, &key("read")).unwrap(), Value::True);
}

#[test]
fn exists_resolves_with_a_boolean_and_tokens_are_used_once() {
    let mut agent = Agent::new();
    let mut host = Recorder { calls: Vec::new() };
    let fs = create_fs_module(&mut agent);
    let exists = module_fn(&fs, "exists");
    let p = exists.call(&mut agent, &mut host, Value::Null, vec![string("a.txt")]).unwrap();
    let (token, _, _) = next_file_request(&mut agent);
    handle(&mut agent, &mut host, token, FsResponse::Exists(false)).unwrap();
    handle(&mut agent, &mut host, token, FsResponse::Exists(true)).unwrap();
    assert_eq!(promise_status(&agent, &p).unwrap(), (PromiseState::Fulfilled, Value::False));
    let q = exists.call(&mut agent, &mut host, Value::Null, vec![string("b.txt")]).unwrap();
    let (second, _, _) = next_file_request(&mut agent);
    assert!(second > token);
    assert_eq!(promise_status(&agent, &q).unwrap().0, PromiseState::Pending);
}
