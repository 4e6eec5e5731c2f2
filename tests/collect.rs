use ratchet_core::agent::Agent;
use ratchet_core::collector::mark;
use ratchet_core::key::ObjectKey;
use ratchet_core::value::Value;

fn key(s: &str) -> ObjectKey {
    ObjectKey::String(s.to_string())
}

fn num(x: f64) -> Value {
    Value::Number(x.to_bits())
}

fn index(v: &Value) -> usize {
    match v {
        Value::Object(r) => r.0,
        other => panic!("not an object: {:?}", other),
    }
}

#[test]
fn collection_keeps_what_roots_reach_and_releases_the_rest() {
    let mut agent = Agent::new();
    let kept = Value::new_object(&mut agent, Value::Null);
    let child = Value::new_object(&mut agent, Value::Null);
    let lost = Value::new_object(&mut agent, Value::Null);
    let lost_child = Value::new_object(&mut agent, Value::Null);
    kept.set(&mut agent, &key("child"), child.clone()).unwrap();
    child.set(&mut agent, &key("n"), num(1.0)).unwrap();
    lost.set(&mut agent, &key("child"), lost_child.clone()).unwrap();
    lost_child.set(&mut agent, &key("back"), lost.clone()).unwrap();
    let released = agent.collect(&vec![kept.clone()]);
    assert!(released >= 2);
    assert_eq!(kept.get(&mut agent, &key("child")).unwrap(), child);
    assert_eq!(child.get(&mut agent, &key("n")).unwrap(), num(1.0));
    assert_eq!(lost.get(&mut agent, &key("child")).unwrap(), Value::Null);
    assert_eq!(lost_child.get(&mut agent, &key("back")).unwrap(), Value::Null);
}

#[test]
fn intrinsics_survive_collection() {
    let mut agent = Agent::new();
    agent.collect(&Vec::new());
    let ctor = Value::Object(agent.intrinsics.promise);
    let resolve = ctor.get(&mut agent, &key("resolve")).unwrap();
    assert_ne!(resolve, Value::Null);
    let proto = Value::Object(agent.intrinsics.promise_prototype);
    assert_eq!(proto.get(&mut agent, &key("constructor")).unwrap(), ctor);
}

#[test]
fn marking_follows_prototypes_and_properties_and_cycles() {
    let mut agent = Agent::new();
    let a = Value::new_object(&mut agent, Value::Null);
    let b = Value::new_object(&mut agent, a.clone());
    let c = Value::new_object(&mut agent, Value::Null);
    c.set(&mut agent, &key("self"), c.clone()).unwrap();
    let marked = mark(&agent.heap, &vec![index(&b)]);
    assert!(marked[index(&b)]);
    assert!(marked[index(&a)]);
    assert!(!marked[index(&c)]);
    let marked = mark(&agent.heap, &vec![index(&c), 1_000_000]);
    assert!(marked[index(&c)]);
    assert!(!marked[index(&a)]);
}
