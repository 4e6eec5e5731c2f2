use ratchet_core::agent::Agent;
use ratchet_core::engine::{Completion, Frame, Interpreter};
use ratchet_core::key::ObjectKey;
use ratchet_core::value::Value;

struct Quiet;

impl Interpreter for Quiet {
    fn run(&mut self, _agent: &Agent, _frame: Frame) -> Completion {
        Completion::Return(Value::Null)
    }

    fn start_suspended(&mut self, _agent: &Agent, _frame: Frame) -> usize {
        0
    }

    fn resume(&mut self, _agent: &Agent, _continuation: usize, _input: Result<Value, Value>) -> Completion {
        Completion::Return(Value::Null)
    }

    fn call_native(&mut self, _agent: &Agent, _id: u64, _this: Value, _arguments: Vec<Value>) -> Completion {
        Completion::Return(Value::Null)
    }
}

fn num(x: f64) -> Value {
    Value::Number(x.to_bits())
}

fn number_text(bits: u64) -> String {
    format!("{}", f64::from_bits(bits))
}

fn key(s: &str) -> ObjectKey {
    ObjectKey::String(s.to_string())
}

fn show(agent: &mut Agent, v: &Value) -> String {
    Value::inspect(agent, &mut Quiet, v, &number_text)
}

#[test]
fn primitives_render_plainly() {
    let mut agent = Agent::new();
    assert_eq!(show(&mut agent, &Value::Null), "null");
    assert_eq!(show(&mut agent, &Value::True), "true");
    assert_eq!(show(&mut agent, &num(1.5)), "1.5");
    assert_eq!(show(&mut agent, &Value::String("hi".to_string())), "'hi'");
}

#[test]
fn objects_list_their_keys() {
    let mut agent = Agent::new();
    let o = Value::new_object(&mut agent, Value::Null);
    assert_eq!(show(&mut agent, &o), "{}");
    o.set(&mut agent, &key("b"), num(2.0)).unwrap();
    o.set(&mut agent, &key("a"), num(1.0)).unwrap();
    assert_eq!(show(&mut agent, &o), "{\n  a: 1,\n  b: 2,\n}");
}

#[test]
fn nested_objects_indent_and_cycles_are_marked() {
    let mut agent = Agent::new();
    let o = Value::new_object(&mut agent, Value::Null);
    let inner = Value::new_object(&mut agent, Value::Null);
    inner.set(&mut agent, &key("x"), Value::Null).unwrap();
    o.set(&mut agent, &key("inner"), inner).unwrap();
    o.set(&mut agent, &key("me"), o.clone()).unwrap();
    assert_eq!(show(&mut agent, &o), "{\n  inner: {\n    x: null,\n  },\n  me: [Circular],\n}");
}

#[test]
fn arrays_use_brackets() {
    let mut agent = Agent::new();
    let a = Value::new_array(&mut agent);
    assert_eq!(show(&mut agent, &a), "[]");
    a.set(&mut agent, &ObjectKey::Number(0), num(7.0)).unwrap();
    assert_eq!(show(&mut agent, &a), "[\n  0: 7,\n]");
}

#[test]
fn errors_render_through_to_string() {
    let mut agent = Agent::new();
    let e = Value::new_error(&mut agent, "boom");
    assert_eq!(show(&mut agent, &e), "Error: boom");
}

#[test]
fn tuples_render_in_parentheses() {
    let mut agent = Agent::new();
    let t = Value::new_tuple(&mut agent, vec![num(1.0), Value::String("a".to_string())]);
    assert_eq!(show(&mut agent, &t), "(1, 'a')");
}

#[test]
fn functions_show_their_name() {
    let mut agent = Agent::new();
    let ctor = Value::Object(agent.intrinsics.promise);
    ctor.set(&mut agent, &key("name"), Value::String("Promise".to_string())).unwrap();
    let text = show(&mut agent, &ctor);
    assert!(text.starts_with("[Function Promise]"));
}

#[test]
fn regexes_show_their_source() {
    let mut agent = Agent::new();
    let r = Value::new_regex_object(&mut agent, "a+").unwrap();
    assert_eq!(show(&mut agent, &r), "/a+/");
}

#[test]
fn numbers_become_index_keys() {
    let mut agent = Agent::new();
    assert_eq!(num(3.0).to_object_key(&mut agent, &number_text).unwrap(), ObjectKey::Number(3));
    assert_eq!(num(2.7).to_object_key(&mut agent, &number_text).unwrap(), ObjectKey::Number(2));
    assert_eq!(num(0.25).to_object_key(&mut agent, &number_text).unwrap(), ObjectKey::Number(0));
    assert_eq!(num(-0.0).to_object_key(&mut agent, &number_text).unwrap(), ObjectKey::Number(0));
    assert_eq!(num(1e300).to_object_key(&mut agent, &number_text).unwrap(), ObjectKey::Number(usize::MAX));
    assert_eq!(num(4503599627370497.0).to_object_key(&mut agent, &number_text).unwrap(), ObjectKey::Number(4503599627370497));
    assert_eq!(num(f64::NAN).to_object_key(&mut agent, &number_text).unwrap(), key("NaN"));
    assert_eq!(num(-1.0).to_object_key(&mut agent, &number_text).unwrap(), key("-1"));
    assert_eq!(num(-2.5).to_object_key(&mut agent, &number_text).unwrap(), key("-2.5"));
    assert_eq!(Value::String("k".to_string()).to_object_key(&mut agent, &number_text).unwrap(), key("k"));
    let err = Value::Null.to_object_key(&mut agent, &number_text).unwrap_err();
    assert_eq!(err.get(&mut agent, &key("message")).unwrap(), Value::String("cannot convert to object key".to_string()));
}

#[test]
fn keys_display_as_enumeration_shows_them() {
    assert_eq!(ObjectKey::Number(42).display(), "42");
    assert_eq!(key("name").display(), "name");
}
