//! A readable rendering of values, for debugging output.
use vstd::prelude::*;
use crate::agent::Agent;
use crate::engine::{Interpreter, call_at, step, MAX_DEPTH};
use crate::key::{ObjectKey, Symbol};
use crate::object::ObjectKind;
use crate::text::join2;
use crate::value::{ObjRef, Value};

verus! {

/// `count` copies of two spaces.
fn indentation(count: usize) -> (r: String)
    ensures
        r@.len() == 2 * count,
{
    let mut out = String::new();
    let mut i: usize = 0;
    while i < count
        invariant
            i <= count,
            out@.len() == 2 * i,
        decreases count - i,
    {
        out = join2(out.as_str(), "  ");
        proof { reveal_strlit("  "); }
        i = i + 1;
    }
    out
}

fn contains(seen: &Vec<usize>, r: usize) -> (b: bool)
    ensures
        b == seen@.contains(r),
{
    let mut i: usize = 0;
    while i < seen.len()
        invariant
            i <= seen@.len(),
            forall|j: int| 0 <= j < i ==> seen@[j] != r,
        decreases seen@.len() - i,
    {
        if seen[i] == r {
            assert(seen@[i as int] == r);
            return true;
        }
        i = i + 1;
    }
    false
}

/// The rendering of a primitive, as `inspect` gives it.
pub open spec fn inspect_primitive(v: Value) -> Option<Seq<char>> {
    match v {
        Value::Null => Some("null"@),
        Value::True => Some("true"@),
        Value::False => Some("false"@),
        Value::String(s) => Some("'"@ + s@ + "'"@),
        _ => None,
    }
}

/// Render `value`. Numbers are rendered by `number_text`; strings are
/// quoted; objects list their enumerable keys one per line, indented;
/// arrays use brackets; functions show their name; an error object shows
/// what its `toString` gives; an object met again on the way down shows as
/// `[Circular]`.
impl Value {
    pub fn inspect<I: Interpreter, F: Fn(u64) -> String>(
        agent: &mut Agent,
        host: &mut I,
        value: &Value,
        number_text: &F,
    ) -> (r: String)
        requires
            old(agent).wf(),
            forall|b: u64| number_text.requires((b,)),
        ensures
            step(&*old(agent), &*final(agent)),
            inspect_primitive(*value) matches Some(t) ==> r@ == t,
    {
        let mut seen: Vec<usize> = Vec::new();
        inspect_at(agent, host, value, 0, &mut seen, number_text, MAX_DEPTH)
    }
}

/// Render `value` at nesting `indent`; `seen` holds the objects on the way
/// down, which render as `[Circular]`.
pub fn inspect_at<I: Interpreter, F: Fn(u64) -> String>(
    agent: &mut Agent,
    host: &mut I,
    value: &Value,
    indent: usize,
    seen: &mut Vec<usize>,
    number_text: &F,
    fuel: usize,
) -> (r: String)
    requires
        old(agent).wf(),
        forall|b: u64| number_text.requires((b,)),
    ensures
        step(&*old(agent), &*final(agent)),
        inspect_primitive(*value) matches Some(t) ==> r@ == t,
        fuel > 0 && value is Object && circular(&*old(agent), value->Object_0, old(seen)@) ==> r@ == "[Circular]"@,
    decreases fuel, 1nat,
{
    match value {
        Value::Null => "null".to_owned(),
        Value::True => "true".to_owned(),
        Value::False => "false".to_owned(),
        Value::Number(n) => number_text(*n),
        Value::String(s) => {
            let head = join2("'", s.as_str());
            join2(head.as_str(), "'")
        },
        Value::Symbol(Symbol(_, _, d)) => match d {
            Some(text) => {
                let head = join2("Symbol(", text.as_str());
                join2(head.as_str(), ")")
            },
            None => "Symbol()".to_owned(),
        },
        Value::Tuple(t) => {
            if fuel == 0 || !agent.heap.is_valid(*t) {
                return "(...)".to_owned();
            }
            let mut items: Vec<Value> = Vec::new();
            if let ObjectKind::Tuple(xs) = agent.heap.kind_of(*t) {
                let mut i: usize = 0;
                while i < xs.len()
                    invariant
                        i <= xs@.len(),
                    decreases xs@.len() - i,
                {
                    items.push(xs[i].duplicate());
                    i = i + 1;
                }
            }
            let mut out = "(".to_owned();
            let mut i: usize = 0;
            while i < items.len()
                invariant
                    step(&*old(agent), &*agent),
                    forall|b: u64| number_text.requires((b,)),
                    fuel > 0,
                    i <= items@.len(),
                decreases items@.len() - i,
            {
                if i > 0 {
                    out = join2(out.as_str(), ", ");
                }
                let item = inspect_at(agent, host, &items[i], indent, seen, number_text, fuel - 1);
                out = join2(out.as_str(), item.as_str());
                i = i + 1;
            }
            join2(out.as_str(), ")")
        },
        Value::Object(o) => inspect_object(agent, host, *o, value, indent, seen, number_text, fuel),
        _ => "[internal]".to_owned(),
    }
}

/// Whether object `o` renders as `[Circular]`: it is already on the way
/// down, and it is neither a regular expression nor an error object (those
/// render by their source and their `toString`).
pub open spec fn circular(a: &Agent, o: ObjRef, seen: Seq<usize>) -> bool {
    &&& a.heap.valid(o)
    &&& seen.contains(o.0)
    &&& !(a.heap.kind(o) is Regex)
    &&& a.heap.object(o).proto() != Value::Object(a.intrinsics.error_prototype)
}

fn inspect_object<I: Interpreter, F: Fn(u64) -> String>(
    agent: &mut Agent,
    host: &mut I,
    o: ObjRef,
    value: &Value,
    indent: usize,
    seen: &mut Vec<usize>,
    number_text: &F,
    fuel: usize,
) -> (r: String)
    requires
        old(agent).wf(),
        forall|b: u64| number_text.requires((b,)),
    ensures
        step(&*old(agent), &*final(agent)),
        fuel > 0 && circular(&*old(agent), o, old(seen)@) ==> r@ == "[Circular]"@,
    decreases fuel, 0nat,
{
    if fuel == 0 || !agent.heap.is_valid(o) {
        return "[Object]".to_owned();
    }
    if let ObjectKind::Regex { source, .. } = agent.heap.kind_of(o) {
        let head = join2("/", source.as_str());
        return join2(head.as_str(), "/");
    }
    let is_error = match agent.heap.prototype_of(o) {
        Value::Object(p) => p.0 == agent.intrinsics.error_prototype.0,
        _ => false,
    };
    if !is_error && contains(seen, o.0) {
        return "[Circular]".to_owned();
    }
    if is_error {
        let to_string = agent.heap.get_property(o, &ObjectKey::String("toString".to_owned()));
        if let Ok(Value::String(s)) = call_at(agent, host, &to_string, value.duplicate(), Vec::new(), MAX_DEPTH) {
            return s;
        }
        if !agent.heap.is_valid(o) {
            return "[Object]".to_owned();
        }
    }
    if contains(seen, o.0) {
        return "[Circular]".to_owned();
    }
    seen.push(o.0);
    let array = match agent.heap.kind_of(o) {
        ObjectKind::Array => true,
        _ => false,
    };
    let function = value.is_callable(agent);
    let keys = agent.heap.keys_of(o);
    let mut out = String::new();
    if function {
        out = "[Function".to_owned();
        if let Value::String(name) = agent.heap.get_property(o, &ObjectKey::String("name".to_owned())) {
            out = join2(out.as_str(), " ");
            out = join2(out.as_str(), name.as_str());
            if keys.len() == 1 {
                return join2(out.as_str(), "]");
            }
        }
        out = join2(out.as_str(), "]");
        if keys.len() == 0 {
            return out;
        }
    }
    out = join2(out.as_str(), if array { "[" } else { "{" });
    if keys.len() == 0 {
        return join2(out.as_str(), if array { "]" } else { "}" });
    }
    let name_key = ObjectKey::String("name".to_owned());
    let inner = if indent < usize::MAX { indent + 1 } else { indent };
    let pad = indentation(inner);
    let mut i: usize = 0;
    while i < keys.len()
        invariant
            step(&*old(agent), &*agent),
            forall|b: u64| number_text.requires((b,)),
            agent.heap.valid(o),
            fuel > 0,
            i <= keys@.len(),
        decreases keys@.len() - i,
    {
        let k = &keys[i];
        if !(function && k.same_key(&name_key)) {
            let v = agent.heap.get_property(o, k);
            let shown = inspect_at(agent, host, &v, inner, seen, number_text, fuel - 1);
            out = join2(out.as_str(), "\n");
            out = join2(out.as_str(), pad.as_str());
            let kt = k.display();
            out = join2(out.as_str(), kt.as_str());
            out = join2(out.as_str(), ": ");
            out = join2(out.as_str(), shown.as_str());
            out = join2(out.as_str(), ",");
        }
        i = i + 1;
    }
    out = join2(out.as_str(), "\n");
    let tail = indentation(indent);
    out = join2(out.as_str(), tail.as_str());
    join2(out.as_str(), if array { "]" } else { "}" })
}

} // verus!
