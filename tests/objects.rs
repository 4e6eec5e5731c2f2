use ratchet_core::agent::Agent;
use ratchet_core::key::{ObjectKey, Symbol};
use ratchet_core::value::{ref_eq, ObjRef, Value};

fn key(s: &str) -> ObjectKey {
    ObjectKey::String(s.to_string())
}

fn num(x: f64) -> Value {
    Value::Number(x.to_bits())
}

struct NoScript;
impl ratchet_core::engine::Interpreter for NoScript {
    fn run(&mut self, _agent: &Agent, _f: ratchet_core::engine::Frame) -> ratchet_core::engine::Completion {
        ratchet_core::engine::Completion::Return(Value::Null)
    }
    fn start_suspended(&mut self, _agent: &Agent, _f: ratchet_core::engine::Frame) -> usize {
        0
    }
    fn resume(&mut self, _agent: &Agent, _c: usize, _i: Result<Value, Value>) -> ratchet_core::engine::Completion {
        ratchet_core::engine::Completion::Return(Value::Null)
    }
    fn call_native(&mut self, _agent: &Agent, _id: u64, _t: Value, _a: Vec<Value>) -> ratchet_core::engine::Completion {
        ratchet_core::engine::Completion::Return(Value::Null)
    }
}

#[test]
fn absent_key_reads_null_and_set_then_get_returns_value() {
    let mut agent = Agent::new();
    let proto = Value::Object(agent.intrinsics.object_prototype);
    let parent = Value::new_object(&mut agent, proto);
    let child = Value::new_object(&mut agent, parent.clone());
    assert_eq!(child.get(&mut agent, &key("missing")).unwrap(), Value::Null);
    assert_eq!(child.set(&mut agent, &key("missing"), num(3.0)).unwrap(), num(3.0));
    assert_eq!(child.get(&mut agent, &key("missing")).unwrap(), num(3.0));
    assert_eq!(parent.get(&mut agent, &key("missing")).unwrap(), Value::Null);
}

#[test]
fn properties_are_inherited_along_the_chain() {
    let mut agent = Agent::new();
    let parent = Value::new_object(&mut agent, Value::Null);
    let child = Value::new_object(&mut agent, parent.clone());
    parent.set(&mut agent, &key("a"), num(1.0)).unwrap();
    assert_eq!(child.get(&mut agent, &key("a")).unwrap(), num(1.0));
    child.set(&mut agent, &key("a"), num(2.0)).unwrap();
    assert_eq!(child.get(&mut agent, &key("a")).unwrap(), num(2.0));
    assert_eq!(parent.get(&mut agent, &key("a")).unwrap(), num(1.0));
}

#[test]
fn private_symbols_are_not_inherited() {
    let mut agent = Agent::new();
    let parent = Value::new_object(&mut agent, Value::Null);
    let child = Value::new_object(&mut agent, parent.clone());
    let s = match Value::new_private_symbol(&mut agent, Some("secret".to_string())) {
        Value::Symbol(s) => s,
        _ => unreachable!(),
    };
    let k = ObjectKey::Symbol(s);
    parent.set(&mut agent, &k, num(1.0)).unwrap();
    assert_eq!(parent.get(&mut agent, &k).unwrap(), num(1.0));
    assert_eq!(child.get(&mut agent, &k).unwrap(), Value::Null);
}

#[test]
fn public_symbols_are_inherited() {
    let mut agent = Agent::new();
    let parent = Value::new_object(&mut agent, Value::Null);
    let child = Value::new_object(&mut agent, parent.clone());
    let v = Value::new_symbol(&mut agent, None);
    let k = match v {
        Value::Symbol(s) => ObjectKey::Symbol(s),
        _ => unreachable!(),
    };
    parent.set(&mut agent, &k, num(1.0)).unwrap();
    assert_eq!(child.get(&mut agent, &k).unwrap(), num(1.0));
}

#[test]
fn index_keys_equal_their_decimal_strings() {
    assert_eq!(ObjectKey::Number(12), key("12"));
    assert_ne!(ObjectKey::Number(12), key("012"));
    assert_ne!(ObjectKey::Number(1), ObjectKey::Number(2));
    let mut agent = Agent::new();
    let o = Value::new_object(&mut agent, Value::Null);
    o.set(&mut agent, &ObjectKey::Number(5), num(1.0)).unwrap();
    assert_eq!(o.get(&mut agent, &key("5")).unwrap(), num(1.0));
}

#[test]
fn keys_are_sorted_and_hide_private_symbols() {
    let mut agent = Agent::new();
    let o = Value::new_object(&mut agent, Value::Null);
    let private = match Value::new_private_symbol(&mut agent, None) {
        Value::Symbol(s) => ObjectKey::Symbol(s),
        _ => unreachable!(),
    };
    let public = match Value::new_symbol(&mut agent, Some("tag".to_string())) {
        Value::Symbol(s) => ObjectKey::Symbol(s),
        _ => unreachable!(),
    };
    o.set(&mut agent, &public, num(0.0)).unwrap();
    o.set(&mut agent, &key("b"), num(0.0)).unwrap();
    o.set(&mut agent, &private, num(0.0)).unwrap();
    o.set(&mut agent, &ObjectKey::Number(10), num(0.0)).unwrap();
    o.set(&mut agent, &key("a"), num(0.0)).unwrap();
    o.set(&mut agent, &ObjectKey::Number(2), num(0.0)).unwrap();
    let keys = o.keys(&mut agent).unwrap();
    assert_eq!(keys.len(), 5);
    assert_eq!(keys[0], ObjectKey::Number(2));
    assert_eq!(keys[1], ObjectKey::Number(10));
    assert_eq!(keys[2], key("a"));
    assert_eq!(keys[3], key("b"));
    assert_eq!(keys[4], public);
}

#[test]
fn set_on_a_primitive_fails() {
    let mut agent = Agent::new();
    let err = num(1.0).set(&mut agent, &key("x"), Value::Null).unwrap_err();
    let message = err.get(&mut agent, &key("message")).unwrap();
    assert_eq!(message, Value::String("base must be an object".to_string()));
}

#[test]
fn get_on_null_fails() {
    let mut agent = Agent::new();
    let err = Value::Null.get(&mut agent, &key("x")).unwrap_err();
    let message = err.get(&mut agent, &key("message")).unwrap();
    assert_eq!(message, Value::String("cannot convert null to object".to_string()));
}

#[test]
fn primitives_read_through_their_prototype() {
    let mut agent = Agent::new();
    let sp = Value::Object(agent.intrinsics.string_prototype);
    sp.set(&mut agent, &key("shout"), num(1.0)).unwrap();
    let s = Value::String("hi".to_string());
    assert_eq!(s.get(&mut agent, &key("shout")).unwrap(), num(1.0));
}

#[test]
fn type_of_names_each_kind() {
    let mut agent = Agent::new();
    let o = Value::new_object(&mut agent, Value::Null);
    let ctor = Value::Object(agent.intrinsics.promise);
    assert_eq!(Value::Null.type_of(&agent), "null");
    assert_eq!(Value::True.type_of(&agent), "boolean");
    assert_eq!(num(1.0).type_of(&agent), "number");
    assert_eq!(Value::String("x".to_string()).type_of(&agent), "string");
    assert_eq!(o.type_of(&agent), "object");
    assert_eq!(ctor.type_of(&agent), "function");
    let t = Value::new_tuple(&mut agent, vec![num(1.0)]);
    assert_eq!(t.type_of(&agent), "tuple");
}

#[test]
fn truthiness() {
    assert!(!Value::Null.to_bool());
    assert!(!Value::False.to_bool());
    assert!(Value::True.to_bool());
    assert!(!num(0.0).to_bool());
    assert!(!num(-0.0).to_bool());
    assert!(num(2.5).to_bool());
    assert!(!Value::String(String::new()).to_bool());
    assert!(Value::String("a".to_string()).to_bool());
}

#[test]
fn number_equality_follows_ieee() {
    let agent = Agent::new();
    assert!(num(0.0).eq(&agent, &num(-0.0)));
    assert!(!num(f64::NAN).eq(&agent, &num(f64::NAN)));
    assert!(num(1.5).eq(&agent, &num(1.5)));
    assert!(!num(1.5).eq(&agent, &num(2.5)));
    assert!(!num(1.0).eq(&agent, &Value::String("1".to_string())));
}

#[test]
fn tuples_answer_index_keys() {
    let mut agent = Agent::new();
    let t = Value::new_tuple(&mut agent, vec![num(1.0), num(2.0)]);
    assert_eq!(t.get(&mut agent, &ObjectKey::Number(1)).unwrap(), num(2.0));
    assert_eq!(t.get(&mut agent, &ObjectKey::Number(5)).unwrap(), Value::Null);
    let keys = t.keys(&mut agent).unwrap();
    assert_eq!(keys, vec![ObjectKey::Number(0), ObjectKey::Number(1)]);
}

#[test]
fn slots_read_back_what_was_written() {
    let mut agent = Agent::new();
    let o = Value::new_custom_object(&mut agent, Value::Null);
    assert!(!o.has_slot(&agent, "state"));
    o.set_slot(&mut agent, "state", num(1.0));
    o.set_slot(&mut agent, "other", num(2.0));
    o.set_slot(&mut agent, "state", num(3.0));
    assert!(o.has_slot(&agent, "state"));
    assert_eq!(o.get_slot(&agent, "state"), num(3.0));
    assert_eq!(o.get_slot(&agent, "other"), num(2.0));
    let plain = Value::new_object(&mut agent, Value::Null);
    assert!(!plain.has_slot(&agent, "state"));
}

#[test]
fn iter_result_has_value_and_done() {
    let mut agent = Agent::new();
    let r = Value::new_iter_result(&mut agent, num(4.0), true).unwrap();
    assert_eq!(r.get(&mut agent, &key("value")).unwrap(), num(4.0));
    assert_eq!(r.get(&mut agent, &key("done")).unwrap(), Value::True);
}

#[test]
fn regex_objects_compile_or_report() {
    let mut agent = Agent::new();
    let ok = Value::new_regex_object(&mut agent, "a+b");
    assert!(ok.is_ok());
    let err = Value::new_regex_object(&mut agent, "(unclosed").unwrap_err();
    let message = err.get(&mut agent, &key("message")).unwrap();
    match message {
        Value::String(m) => assert!(m.contains("unclosed")),
        other => panic!("unexpected {:?}", other),
    }
}

#[test]
fn symbols_get_fresh_ids() {
    let mut counter: usize = 7;
    let a = Symbol::new(&mut counter, false, None);
    let b = Symbol::new(&mut counter, true, Some("d".to_string()));
    assert_eq!(a.0, 7);
    assert_eq!(b.0, 8);
    assert!(b.1);
    assert_eq!(counter, 9);
    assert_ne!(a, b);
}

#[test]
fn ref_eq_compares_identity() {
    assert!(ref_eq(&ObjRef(3), &ObjRef(3)));
    assert!(!ref_eq(&ObjRef(3), &ObjRef(4)));
}

#[test]
fn error_objects_print_name_and_message() {
    let mut agent = Agent::new();
    let e = Value::new_error(&mut agent, "boom");
    let to_string = e.get(&mut agent, &key("toString")).unwrap();
    let text = to_string.call(&mut agent, &mut NoScript, e.clone(), vec![]).unwrap();
    assert_eq!(text, Value::String("Error: boom".to_string()));
}

#[test]
fn buffers_are_array_like_objects() {
    let mut agent = Agent::new();
    let b = Value::new_buffer_from_vec(&mut agent, vec![1, 2, 3]);
    assert_eq!(b.type_of(&agent), "object");
    assert_eq!(b.get(&mut agent, &key("missing")).unwrap(), Value::Null);
}

#[test]
fn tuples_compare_item_by_item() {
    let mut agent = Agent::new();
    let a = Value::new_tuple(&mut agent, vec![num(1.0), Value::String("x".to_string())]);
    let b = Value::new_tuple(&mut agent, vec![num(1.0), Value::String("x".to_string())]);
    let c = Value::new_tuple(&mut agent, vec![num(1.0)]);
    let d = Value::new_tuple(&mut agent, vec![num(2.0), Value::String("x".to_string())]);
    assert!(a.eq(&agent, &b));
    assert!(!a.eq(&agent, &c));
    assert!(!a.eq(&agent, &d));
    let na = Value::new_tuple(&mut agent, vec![a.clone(), num(0.0)]);
    let nb = Value::new_tuple(&mut agent, vec![b.clone(), num(-0.0)]);
    assert!(na.eq(&agent, &nb));
    let nan = Value::new_tuple(&mut agent, vec![num(f64::NAN)]);
    assert!(!nan.eq(&agent, &nan));
    let o = Value::new_object(&mut agent, Value::Null);
    let p = Value::new_object(&mut agent, Value::Null);
    assert!(o.eq(&agent, &o));
    assert!(!o.eq(&agent, &p));
}
