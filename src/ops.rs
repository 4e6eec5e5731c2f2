//! Operations on values that need the agent: allocation, property access,
//! internal slots, conversions.
use vstd::prelude::*;
use crate::agent::{Agent, is_error_with};
use crate::key::{ObjectKey, Symbol};
use crate::object::{Heap, FunctionInfo, NativeFn, ObjectKind, SlotTable, keys_sorted};
use crate::value::{ObjRef, Value, is_zero};

verus! {

/// The name `type_of` gives a value.
pub open spec fn type_tag(a: &Agent, v: Value) -> Seq<char> {
    match v {
        Value::Null => "null"@,
        Value::True | Value::False => "boolean"@,
        Value::Number(_) => "number"@,
        Value::String(_) => "string"@,
        Value::Symbol(_) => "symbol"@,
        Value::Object(r) => if a.heap.valid(r) && is_function_kind(a.heap.kind(r)) {
            "function"@
        } else {
            "object"@
        },
        Value::Tuple(_) => "tuple"@,
        _ => "internal"@,
    }
}

pub open spec fn is_function_kind(k: ObjectKind) -> bool {
    k is BytecodeFunction || k is BuiltinFunction
}

/// Whether `v` is a callable object of this agent.
pub open spec fn is_callable(a: &Agent, v: Value) -> bool {
    v matches Value::Object(r) && a.heap.valid(r) && is_function_kind(a.heap.kind(r))
}

/// Whether `v` is a language value rather than an engine-internal one.
pub open spec fn is_language_value(v: Value) -> bool {
    !(v is Empty || v is WrappedContinuation || v is Iterator)
}

/// Truthiness: `Null`, `False`, the zeros and the empty string are false.
pub open spec fn truthy(v: Value) -> bool {
    match v {
        Value::Null => false,
        Value::False => false,
        Value::Number(n) => !is_zero(n),
        Value::String(s) => s@.len() > 0,
        _ => true,
    }
}

/// The first slot named `name`.
pub open spec fn slot_lookup(slots: Seq<(String, Value)>, name: Seq<char>) -> Option<Value>
    decreases slots.len(),
{
    if slots.len() == 0 {
        None
    } else if slots[0].0@ == name {
        Some(slots[0].1)
    } else {
        slot_lookup(slots.drop_first(), name)
    }
}

/// The slot table of an object that has one.
pub open spec fn slots_of(k: ObjectKind) -> Option<Seq<(String, Value)>> {
    match k {
        ObjectKind::Custom(s) => Some(s@),
        ObjectKind::BuiltinFunction(_, s) => Some(s@),
        _ => None,
    }
}

/// The slot `name` of value `v`, if `v` is an object with a slot table
/// that has it.
pub open spec fn slot_of(a: &Agent, v: Value, name: Seq<char>) -> Option<Value> {
    match v {
        Value::Object(r) => if a.heap.valid(r) {
            match slots_of(a.heap.kind(r)) {
                Some(s) => slot_lookup(s, name),
                None => None,
            }
        } else {
            None
        },
        _ => None,
    }
}

fn find_slot(slots: &SlotTable, name: &str) -> (r: Option<usize>)
    ensures
        match r {
            Some(i) => i < slots@.len() && slots@[i as int].0@ == name@ && slot_lookup(slots@, name@) == Some(slots@[i as int].1),
            None => slot_lookup(slots@, name@) is None,
        },
{
    let wanted = name.to_owned();
    let mut i: usize = 0;
    assert(slots@.subrange(0, slots@.len() as int) =~= slots@);
    while i < slots.len()
        invariant
            wanted@ == name@,
            i <= slots@.len(),
            slot_lookup(slots@, name@) == slot_lookup(slots@.subrange(i as int, slots@.len() as int), name@),
        decreases slots@.len() - i,
    {
        let ghost rest = slots@.subrange(i as int, slots@.len() as int);
        assert(rest[0] == slots@[i as int]);
        if slots[i].0.eq(&wanted) {
            return Some(i);
        }
        assert(rest.drop_first() =~= slots@.subrange(i + 1, slots@.len() as int));
        i = i + 1;
    }
    None
}

#[verifier::external_type_specification]
#[verifier::external_body]
pub struct ExRegexError(regex::Error);

/// Whether `regex` accepts `pattern`.
pub uninterp spec fn regex_accepts(pattern: Seq<char>) -> bool;

/// Relies on `regex::Regex::new`: whether it succeeds depends on the
/// pattern alone.
#[verifier::external_body]
fn compile_regex(pattern: &str) -> (r: Result<regex::Regex, regex::Error>)
    ensures
        r is Ok == regex_accepts(pattern@),
{
    regex::Regex::new(pattern)
}

/// Relies on `Display` for `regex::Error`: the diagnostic text.
#[verifier::external_body]
fn regex_error_text(e: &regex::Error) -> (r: String)
{
    format!("{}", e)
}

/// The prototype a primitive reads properties through, if it has one.
pub open spec fn primitive_proto(a: &Agent, v: Value) -> Option<ObjRef> {
    match v {
        Value::True | Value::False => Some(a.intrinsics.boolean_prototype),
        Value::Number(_) => Some(a.intrinsics.number_prototype),
        Value::String(_) => Some(a.intrinsics.string_prototype),
        _ => None,
    }
}

impl Value {
    /// The name of the value's type: null, boolean, number, string, symbol,
    /// object, function or tuple.
    pub fn type_of(&self, agent: &Agent) -> (r: &'static str)
        requires
            agent.wf(),
            is_language_value(*self),
        ensures
            r@ == type_tag(agent, *self),
    {
        match self {
            Value::Null => "null",
            Value::True | Value::False => "boolean",
            Value::Number(_) => "number",
            Value::String(_) => "string",
            Value::Symbol(_) => "symbol",
            Value::Object(r) => {
                if agent.heap.is_valid(*r) {
                    match agent.heap.kind_of(*r) {
                        ObjectKind::BytecodeFunction(_) | ObjectKind::BuiltinFunction(_, _) => "function",
                        _ => "object",
                    }
                } else {
                    "object"
                }
            },
            Value::Tuple(_) => "tuple",
            _ => "internal",
        }
    }

    /// Whether the value is a function of this agent.
    pub fn is_callable(&self, agent: &Agent) -> (r: bool)
        ensures
            r == is_callable(agent, *self),
    {
        match self {
            Value::Object(r) => {
                if agent.heap.is_valid(*r) {
                    match agent.heap.kind_of(*r) {
                        ObjectKind::BytecodeFunction(_) | ObjectKind::BuiltinFunction(_, _) => true,
                        _ => false,
                    }
                } else {
                    false
                }
            },
            _ => false,
        }
    }

    /// Truthiness of a language value.
    pub fn to_bool(&self) -> (r: bool)
        requires
            is_language_value(*self),
        ensures
            r == truthy(*self),
    {
        match self {
            Value::Null => false,
            Value::True => true,
            Value::False => false,
            Value::Number(n) => *n & !crate::value::SIGN_MASK != 0,
            Value::String(s) => s.as_str().unicode_len() != 0,
            _ => true,
        }
    }

    /// A new symbol with a fresh id.
    pub fn new_symbol(agent: &mut Agent, desc: Option<String>) -> (r: Value)
        requires
            old(agent).symbol_counter < usize::MAX,
        ensures
            r matches Value::Symbol(s) && s.0 == old(agent).symbol_counter && !s.1 && s.2 == desc,
            final(agent).symbol_counter == old(agent).symbol_counter + 1,
            final(agent).heap == old(agent).heap,
            final(agent).intrinsics == old(agent).intrinsics,
            final(agent).jobs == old(agent).jobs,
    {
        Value::Symbol(Symbol::new(&mut agent.symbol_counter, false, desc))
    }

    /// A new private symbol with a fresh id.
    pub fn new_private_symbol(agent: &mut Agent, desc: Option<String>) -> (r: Value)
        requires
            old(agent).symbol_counter < usize::MAX,
        ensures
            r matches Value::Symbol(s) && s.0 == old(agent).symbol_counter && s.1 && s.2 == desc,
            final(agent).symbol_counter == old(agent).symbol_counter + 1,
            final(agent).heap == old(agent).heap,
            final(agent).intrinsics == old(agent).intrinsics,
            final(agent).jobs == old(agent).jobs,
    {
        Value::Symbol(Symbol::new(&mut agent.symbol_counter, true, desc))
    }

    /// A new object of `kind` whose prototype is `prototype`.
    pub fn new_kind(agent: &mut Agent, kind: ObjectKind, prototype: Value) -> (r: Value)
        requires
            old(agent).wf(),
            prototype is Null || (prototype matches Value::Object(p) && old(agent).heap.valid(p)),
        ensures
            final(agent).heap.key_table() == old(agent).heap.key_table(),
            forall|q: ObjRef| old(agent).heap.valid(q) ==> final(agent).heap.object(q) == old(agent).heap.object(q),
            final(agent).reactor == old(agent).reactor,
            final(agent).wf(),
            old(agent).evolves_to(&*final(agent)),
            final(agent).jobs@ == old(agent).jobs@,
            final(agent).heap.len() == old(agent).heap.len() + 1,
            r == Value::Object(ObjRef(old(agent).heap.len() as usize)),
            final(agent).heap.kind(ObjRef(old(agent).heap.len() as usize)) == kind,
            final(agent).heap.object(ObjRef(old(agent).heap.len() as usize)).proto() == prototype,
            final(agent).heap.object(ObjRef(old(agent).heap.len() as usize)).entries().len() == 0,
            forall|q: ObjRef| old(agent).heap.valid(q) ==> final(agent).heap.kind(q) == old(agent).heap.kind(q),
    {
        Value::Object(agent.alloc_object(kind, prototype))
    }

    /// A new ordinary object.
    pub fn new_object(agent: &mut Agent, prototype: Value) -> (r: Value)
        requires
            old(agent).wf(),
            prototype is Null || (prototype matches Value::Object(p) && old(agent).heap.valid(p)),
        ensures
            final(agent).heap.key_table() == old(agent).heap.key_table(),
            forall|q: ObjRef| old(agent).heap.valid(q) ==> final(agent).heap.object(q) == old(agent).heap.object(q),
            final(agent).reactor == old(agent).reactor,
            final(agent).wf(),
            old(agent).evolves_to(&*final(agent)),
            final(agent).jobs@ == old(agent).jobs@,
            final(agent).heap.len() == old(agent).heap.len() + 1,
            r == Value::Object(ObjRef(old(agent).heap.len() as usize)),
            final(agent).heap.kind(ObjRef(old(agent).heap.len() as usize)) == ObjectKind::Ordinary,
            final(agent).heap.object(ObjRef(old(agent).heap.len() as usize)).proto() == prototype,
            final(agent).heap.object(ObjRef(old(agent).heap.len() as usize)).entries().len() == 0,
            forall|q: ObjRef| old(agent).heap.valid(q) ==> final(agent).heap.kind(q) == old(agent).heap.kind(q),
    {
        Value::new_kind(agent, ObjectKind::Ordinary, prototype)
    }

    /// A new object with an empty slot table.
    pub fn new_custom_object(agent: &mut Agent, prototype: Value) -> (r: Value)
        requires
            old(agent).wf(),
            prototype is Null || (prototype matches Value::Object(p) && old(agent).heap.valid(p)),
        ensures
            final(agent).reactor == old(agent).reactor,
            final(agent).wf(),
            old(agent).evolves_to(&*final(agent)),
            final(agent).jobs@ == old(agent).jobs@,
            final(agent).heap.len() == old(agent).heap.len() + 1,
            r == Value::Object(ObjRef(old(agent).heap.len() as usize)),
            final(agent).heap.kind(ObjRef(old(agent).heap.len() as usize)) matches ObjectKind::Custom(s) && s@.len() == 0,
            final(agent).heap.object(ObjRef(old(agent).heap.len() as usize)).proto() == prototype,
            forall|q: ObjRef| old(agent).heap.valid(q) ==> final(agent).heap.kind(q) == old(agent).heap.kind(q),
    {
        Value::new_kind(agent, ObjectKind::Custom(Vec::new()), prototype)
    }

    /// An error object whose own `message` is `message`.
    pub fn new_error(agent: &mut Agent, message: &str) -> (e: Value)
        requires
            old(agent).wf(),
        ensures
            final(agent).wf(),
            old(agent).evolves_to(&*final(agent)),
            final(agent).jobs@ == old(agent).jobs@,
            is_error_with(&*final(agent), e, message@),
    {
        agent.new_error(message)
    }

    /// A regular-expression object for `pattern`, or an error object with
    /// the compiler's diagnostic when the pattern does not compile.
    pub fn new_regex_object(agent: &mut Agent, pattern: &str) -> (r: Result<Value, Value>)
        requires
            old(agent).wf(),
        ensures
            final(agent).wf(),
            old(agent).evolves_to(&*final(agent)),
            final(agent).jobs@ == old(agent).jobs@,
            r is Ok == regex_accepts(pattern@),
            r matches Ok(v) ==> v == Value::Object(ObjRef(old(agent).heap.len() as usize)),
            r is Ok ==> (final(agent).heap.kind(ObjRef(old(agent).heap.len() as usize)) matches ObjectKind::Regex { source, .. }
                && source@ == pattern@),
            r is Ok ==> final(agent).heap.object(ObjRef(old(agent).heap.len() as usize)).proto() == Value::Object(old(agent).intrinsics.regex_prototype),
            r matches Err(e) ==> e is Object,
    {
        match compile_regex(pattern) {
            Ok(compiled) => {
                let p = Value::Object(agent.intrinsics.regex_prototype);
                let kind = ObjectKind::Regex { source: pattern.to_owned(), compiled };
                Ok(Value::new_kind(agent, kind, p))
            },
            Err(e) => {
                let text = regex_error_text(&e);
                Err(agent.new_error(text.as_str()))
            },
        }
    }

    /// A new empty array.
    pub fn new_array(agent: &mut Agent) -> (r: Value)
        requires
            old(agent).wf(),
        ensures
            final(agent).wf(),
            old(agent).evolves_to(&*final(agent)),
            final(agent).jobs@ == old(agent).jobs@,
            r == Value::Object(ObjRef(old(agent).heap.len() as usize)),
            final(agent).heap.kind(ObjRef(old(agent).heap.len() as usize)) == ObjectKind::Array,
            final(agent).heap.object(ObjRef(old(agent).heap.len() as usize)).proto() == Value::Object(old(agent).intrinsics.array_prototype),
    {
        let p = Value::Object(agent.intrinsics.array_prototype);
        Value::new_kind(agent, ObjectKind::Array, p)
    }

    /// A buffer object holding `vec`.
    pub fn new_buffer_from_vec(agent: &mut Agent, vec: Vec<u8>) -> (r: Value)
        requires
            old(agent).wf(),
        ensures
            final(agent).wf(),
            old(agent).evolves_to(&*final(agent)),
            final(agent).jobs@ == old(agent).jobs@,
            r == Value::Object(ObjRef(old(agent).heap.len() as usize)),
            final(agent).heap.kind(ObjRef(old(agent).heap.len() as usize)) == ObjectKind::Buffer(vec),
            final(agent).heap.object(ObjRef(old(agent).heap.len() as usize)).proto() == Value::Object(old(agent).intrinsics.array_prototype),
    {
        let p = Value::Object(agent.intrinsics.array_prototype);
        Value::new_kind(agent, ObjectKind::Buffer(vec), p)
    }

    /// A new tuple of `items`.
    pub fn new_tuple(agent: &mut Agent, items: Vec<Value>) -> (r: Value)
        requires
            old(agent).wf(),
        ensures
            final(agent).wf(),
            old(agent).evolves_to(&*final(agent)),
            final(agent).jobs@ == old(agent).jobs@,
            r == Value::Tuple(ObjRef(old(agent).heap.len() as usize)),
            final(agent).heap.kind(ObjRef(old(agent).heap.len() as usize)) == ObjectKind::Tuple(items),
    {
        let r = agent.alloc_object(ObjectKind::Tuple(items), Value::Null);
        Value::Tuple(r)
    }

    /// A compiled function; its prototype is the function prototype.
    pub fn new_bytecode_function(agent: &mut Agent, info: FunctionInfo) -> (r: Value)
        requires
            old(agent).wf(),
        ensures
            final(agent).wf(),
            old(agent).evolves_to(&*final(agent)),
            final(agent).jobs@ == old(agent).jobs@,
            r == Value::Object(ObjRef(old(agent).heap.len() as usize)),
            final(agent).heap.kind(ObjRef(old(agent).heap.len() as usize)) == ObjectKind::BytecodeFunction(info),
            final(agent).heap.object(ObjRef(old(agent).heap.len() as usize)).proto() == Value::Object(old(agent).intrinsics.function_prototype),
    {
        let p = Value::Object(agent.intrinsics.function_prototype);
        Value::new_kind(agent, ObjectKind::BytecodeFunction(info), p)
    }

    /// A native function with an empty slot table.
    pub fn new_builtin_function(agent: &mut Agent, f: NativeFn) -> (r: Value)
        requires
            old(agent).wf(),
        ensures
            forall|q: ObjRef| old(agent).heap.valid(q) ==> final(agent).heap.object(q) == old(agent).heap.object(q),
            final(agent).reactor == old(agent).reactor,
            final(agent).wf(),
            old(agent).evolves_to(&*final(agent)),
            final(agent).jobs@ == old(agent).jobs@,
            final(agent).heap.len() == old(agent).heap.len() + 1,
            r == Value::Object(ObjRef(old(agent).heap.len() as usize)),
            final(agent).heap.kind(ObjRef(old(agent).heap.len() as usize)) matches ObjectKind::BuiltinFunction(g, s) && g == f && s@.len() == 0,
            final(agent).heap.object(ObjRef(old(agent).heap.len() as usize)).proto() == Value::Object(old(agent).intrinsics.function_prototype),
            forall|q: ObjRef| old(agent).heap.valid(q) ==> final(agent).heap.kind(q) == old(agent).heap.kind(q),
    {
        let p = Value::Object(agent.intrinsics.function_prototype);
        Value::new_kind(agent, ObjectKind::BuiltinFunction(f, Vec::new()), p)
    }
}

impl Value {
    /// Read property `key`: the nearest value on the prototype chain, or
    /// `Null`. Primitives read through their prototype; tuples answer index
    /// keys from their items. `Null`, symbols and internal values have no
    /// properties.
    pub fn get(&self, agent: &mut Agent, key: &ObjectKey) -> (r: Result<Value, Value>)
        requires
            old(agent).wf(),
        ensures
            final(agent).wf(),
            old(agent).evolves_to(&*final(agent)),
            final(agent).jobs@ == old(agent).jobs@,
            (*self is Object && old(agent).heap.valid(self->Object_0)) ==> r == Ok::<Value, Value>(old(agent).heap.lookup(self->Object_0, *key))
                && *final(agent) == *old(agent),
            primitive_proto(&*old(agent), *self) matches Some(p) ==> r == Ok::<Value, Value>(
                if key.is_private_spec() { Value::Null } else { old(agent).heap.lookup(p, *key) }),
            *self is Null ==> r is Err && is_error_with(&*final(agent), r->Err_0, "cannot convert null to object"@),
    {
        match self {
            Value::Object(o) => {
                if agent.heap.is_valid(*o) {
                    Ok(agent.heap.get_property(*o, key))
                } else {
                    Err(agent.new_error("base must be an object"))
                }
            },
            Value::True | Value::False => {
                if key.is_private() {
                    Ok(Value::Null)
                } else {
                    Ok(agent.heap.get_property(agent.intrinsics.boolean_prototype, key))
                }
            },
            Value::Number(_) => {
                if key.is_private() {
                    Ok(Value::Null)
                } else {
                    Ok(agent.heap.get_property(agent.intrinsics.number_prototype, key))
                }
            },
            Value::String(_) => {
                if key.is_private() {
                    Ok(Value::Null)
                } else {
                    Ok(agent.heap.get_property(agent.intrinsics.string_prototype, key))
                }
            },
            Value::Tuple(t) => {
                if agent.heap.is_valid(*t) {
                    if let ObjectKind::Tuple(items) = agent.heap.kind_of(*t) {
                        if let ObjectKey::Number(n) = key {
                            if *n < items.len() {
                                return Ok(items[*n].duplicate());
                            }
                        }
                    }
                }
                Ok(Value::Null)
            },
            Value::Null => Err(agent.new_error("cannot convert null to object")),
            _ => Err(agent.new_error("cannot convert to object")),
        }
    }

    /// Write property `key` on an object; the write lands on the object
    /// itself and the value is handed back.
    pub fn set(&self, agent: &mut Agent, key: &ObjectKey, value: Value) -> (r: Result<Value, Value>)
        requires
            old(agent).wf(),
        ensures
            final(agent).wf(),
            old(agent).evolves_to(&*final(agent)),
            final(agent).jobs@ == old(agent).jobs@,
            (*self is Object && old(agent).heap.valid(self->Object_0)) ==> r == Ok::<Value, Value>(value)
                && final(agent).heap.lookup(self->Object_0, *key) == value
                && final(agent).heap.own(self->Object_0, *key) == Some(value)
                && final(agent).heap.len() == old(agent).heap.len()
                && final(agent).reactor == old(agent).reactor
                && final(agent).heap.object(self->Object_0).entries().len() <= old(agent).heap.object(self->Object_0).entries().len() + 1,
            (*self is Object && old(agent).heap.valid(self->Object_0)) ==> forall|j: int|
                0 <= j < old(agent).heap.object(self->Object_0).entries().len() ==> #[trigger] final(agent).heap.object(
                self->Object_0).entries()[j].0 == old(agent).heap.object(self->Object_0).entries()[j].0,
            (*self is Object && old(agent).heap.valid(self->Object_0)) ==> forall|q: ObjRef, k2: ObjectKey|
                old(agent).heap.valid(q) && (q != self->Object_0 || k2.model() != key.model())
                    ==> #[trigger] final(agent).heap.own(q, k2) == old(agent).heap.own(q, k2),
            (*self is Object && old(agent).heap.valid(self->Object_0)) ==> forall|q: ObjRef|
                old(agent).heap.valid(q) ==> #[trigger] final(agent).heap.kind(q) == old(agent).heap.kind(q),
            !(*self is Object && old(agent).heap.valid(self->Object_0)) ==> final(agent).reactor == old(agent).reactor
                && forall|q: ObjRef| old(agent).heap.valid(q) ==> #[trigger] final(agent).heap.object(q) == old(agent).heap.object(q),
            !(*self is Object && old(agent).heap.valid(self->Object_0)) ==> r is Err
                && is_error_with(&*final(agent), r->Err_0, "base must be an object"@),
    {
        match self {
            Value::Object(o) => {
                if agent.heap.is_valid(*o) {
                    let v2 = value.duplicate();
                    agent.put(*o, key, value);
                    return Ok(v2);
                }
            },
            _ => {},
        }
        Err(agent.new_error("base must be an object"))
    }

    /// The enumerable own keys of an object, sorted: indices, then strings,
    /// then symbols; private symbols never appear. A tuple's keys are its
    /// indices.
    pub fn keys(&self, agent: &mut Agent) -> (r: Result<Vec<ObjectKey>, Value>)
        requires
            old(agent).wf(),
        ensures
            final(agent).wf(),
            old(agent).evolves_to(&*final(agent)),
            final(agent).jobs@ == old(agent).jobs@,
            (*self is Object && old(agent).heap.valid(self->Object_0)) ==> *final(agent) == *old(agent),
            (*self is Object && old(agent).heap.valid(self->Object_0)) ==> r is Ok && keys_sorted(r->Ok_0@)
                && r->Ok_0@.to_multiset() == old(agent).heap.own_keys(self->Object_0).to_multiset(),
            !(*self is Object || *self is Tuple) ==> r is Err && is_error_with(&*final(agent), r->Err_0, "base must be an object"@),
    {
        match self {
            Value::Object(o) => {
                if agent.heap.is_valid(*o) {
                    return Ok(agent.heap.keys_of(*o));
                }
            },
            Value::Tuple(t) => {
                let mut out: Vec<ObjectKey> = Vec::new();
                if agent.heap.is_valid(*t) {
                    if let ObjectKind::Tuple(items) = agent.heap.kind_of(*t) {
                        let mut i: usize = 0;
                        while i < items.len()
                            invariant
                                i <= items@.len(),
                            decreases items@.len() - i,
                        {
                            out.push(ObjectKey::Number(i));
                            i = i + 1;
                        }
                    }
                }
                return Ok(out);
            },
            _ => {},
        }
        Err(agent.new_error("base must be an object"))
    }

    /// The internal slot `key`; the object must have it.
    pub fn get_slot(&self, agent: &Agent, key: &str) -> (r: Value)
        requires
            slot_of(agent, *self, key@) is Some,
        ensures
            slot_of(agent, *self, key@) == Some(r),
    {
        match self {
            Value::Object(o) => {
                match agent.heap.kind_of(*o) {
                    ObjectKind::Custom(slots) | ObjectKind::BuiltinFunction(_, slots) => {
                        match find_slot(slots, key) {
                            Some(i) => slots[i].1.duplicate(),
                            None => Value::Null,
                        }
                    },
                    _ => Value::Null,
                }
            },
            _ => Value::Null,
        }
    }

    /// Whether the value is an object with internal slot `key`.
    pub fn has_slot(&self, agent: &Agent, key: &str) -> (r: bool)
        ensures
            r == (slot_of(agent, *self, key@) is Some),
    {
        match self {
            Value::Object(o) => {
                if !agent.heap.is_valid(*o) {
                    return false;
                }
                match agent.heap.kind_of(*o) {
                    ObjectKind::Custom(slots) | ObjectKind::BuiltinFunction(_, slots) => find_slot(slots, key).is_some(),
                    _ => false,
                }
            },
            _ => false,
        }
    }

    /// Write internal slot `key` of an object that has a slot table.
    pub fn set_slot(&self, agent: &mut Agent, key: &str, value: Value)
        requires
            old(agent).wf(),
            *self is Object && old(agent).heap.valid(self->Object_0) && slots_of(old(agent).heap.kind(self->Object_0)) is Some,
        ensures
            final(agent).wf(),
            old(agent).evolves_to(&*final(agent)),
            final(agent).jobs@ == old(agent).jobs@,
            final(agent).heap.len() == old(agent).heap.len(),
            slot_of(&*final(agent), *self, key@) == Some(value),
            forall|name: Seq<char>| name != key@ ==> slot_of(&*final(agent), *self, name) == slot_of(&*old(agent), *self, name),
            crate::agent::props_same(&*old(agent), &*final(agent)),
            final(agent).heap.kind(self->Object_0) is Custom == old(agent).heap.kind(self->Object_0) is Custom,
            forall|q: ObjRef| old(agent).heap.valid(q) && q != self->Object_0 ==> final(agent).heap.kind(q) == old(agent).heap.kind(q),
            final(agent).reactor == old(agent).reactor,
    {
        if let Value::Object(o) = self {
            let o = *o;
            let kind = match agent.heap.kind_of(o) {
                ObjectKind::Custom(slots) => {
                    let new_slots = slots_with(slots, key, value);
                    ObjectKind::Custom(new_slots)
                },
                ObjectKind::BuiltinFunction(f, slots) => {
                    let new_slots = slots_with(slots, key, value);
                    ObjectKind::BuiltinFunction(f.duplicate(), new_slots)
                },
                _ => {
                    return;
                },
            };
            agent.replace_kind(o, kind);
        }
    }
}

impl Value {
    /// The object for a value: objects and tuples are themselves; booleans,
    /// numbers and strings are boxed in a new object whose prototype is the
    /// matching intrinsic.
    pub fn to_object(&self, agent: &mut Agent) -> (r: Result<Value, Value>)
        requires
            old(agent).wf(),
        ensures
            final(agent).wf(),
            old(agent).evolves_to(&*final(agent)),
            final(agent).jobs@ == old(agent).jobs@,
            (*self is Object || *self is Tuple) ==> r == Ok::<Value, Value>(*self) && *final(agent) == *old(agent),
            primitive_proto(&*old(agent), *self) matches Some(p) ==> r == Ok::<Value, Value>(Value::Object(ObjRef(old(agent).heap.len() as usize)))
                && final(agent).heap.object(ObjRef(old(agent).heap.len() as usize)).proto() == Value::Object(p),
            *self is Null ==> r is Err && is_error_with(&*final(agent), r->Err_0, "cannot convert null to object"@),
            !(*self is Null || *self is Object || *self is Tuple || *self is True || *self is False || *self is Number
                || *self is String) ==> r is Err && is_error_with(&*final(agent), r->Err_0, "cannot convert to object"@),
            r matches Ok(v) ==> v is Object || v is Tuple,
            *self is True ==> final(agent).heap.kind(ObjRef(old(agent).heap.len() as usize)) == ObjectKind::Boolean(true),
            *self is False ==> final(agent).heap.kind(ObjRef(old(agent).heap.len() as usize)) == ObjectKind::Boolean(false),
            *self is Number ==> final(agent).heap.kind(ObjRef(old(agent).heap.len() as usize)) == ObjectKind::Number(self->Number_0),
            *self is String ==> final(agent).heap.kind(ObjRef(old(agent).heap.len() as usize)) is String
                && final(agent).heap.kind(ObjRef(old(agent).heap.len() as usize))->String_0@ == self->String_0@,
            r matches Ok(v) ==> v matches Value::Object(o) ==> final(agent).heap.valid(o) || *self == v,
    {
        match self {
            Value::Null => Err(agent.new_error("cannot convert null to object")),
            Value::True => {
                let p = Value::Object(agent.intrinsics.boolean_prototype);
                Ok(Value::new_kind(agent, ObjectKind::Boolean(true), p))
            },
            Value::False => {
                let p = Value::Object(agent.intrinsics.boolean_prototype);
                Ok(Value::new_kind(agent, ObjectKind::Boolean(false), p))
            },
            Value::Number(n) => {
                let p = Value::Object(agent.intrinsics.number_prototype);
                Ok(Value::new_kind(agent, ObjectKind::Number(*n), p))
            },
            Value::String(s) => {
                let p = Value::Object(agent.intrinsics.string_prototype);
                Ok(Value::new_kind(agent, ObjectKind::String(s.clone()), p))
            },
            Value::Object(_) | Value::Tuple(_) => Ok(self.duplicate()),
            _ => Err(agent.new_error("cannot convert to object")),
        }
    }
}

pub open spec fn two_to(k: nat) -> nat
    decreases k,
{
    if k == 0 { 1 } else { 2 * two_to((k - 1) as nat) }
}

fn two_to_exec(k: u64) -> (r: u64)
    requires
        k <= 52,
    ensures
        r == two_to(k as nat),
        r <= 0x10_0000_0000_0000,
{
    proof {
        lemma_two_to_52();
    }
    let mut r: u64 = 1;
    let mut i: u64 = 0;
    while i < k
        invariant
            i <= k,
            k <= 52,
            r == two_to(i as nat),
            two_to(52) == 0x10_0000_0000_0000,
        decreases k - i,
    {
        proof {
            lemma_two_to_monotone(i as nat + 1, 52);
        }
        r = r * 2;
        i = i + 1;
    }
    proof {
        lemma_two_to_monotone(k as nat, 52);
    }
    r
}

proof fn lemma_two_to_monotone(a: nat, b: nat)
    requires
        a <= b,
    ensures
        two_to(a) <= two_to(b),
    decreases b,
{
    if a < b {
        lemma_two_to_monotone(a, (b - 1) as nat);
    }
}

proof fn lemma_two_to_52()
    ensures
        two_to(52) == 0x10_0000_0000_0000,
{
    reveal_with_fuel(two_to, 53);
}

/// The parts of a binary64 bit pattern: sign, biased exponent, fraction.
pub open spec fn sign_of(b: u64) -> nat { b as nat / 0x8000_0000_0000_0000 }
pub open spec fn exponent_of(b: u64) -> nat { (b as nat / 0x10_0000_0000_0000) % 2048 }
pub open spec fn fraction_of(b: u64) -> nat { b as nat % 0x10_0000_0000_0000 }

/// What `n as usize` gives for a number `n >= 0` (or negative zero):
/// the integer part, saturating at the largest index; `None` for numbers
/// below zero and for NaN.
pub open spec fn index_of_number(b: u64) -> Option<nat> {
    let e = exponent_of(b);
    let f = fraction_of(b);
    let m = f + 0x10_0000_0000_0000;
    if e == 0 && f == 0 {
        Some(0)
    } else if sign_of(b) != 0 || (e == 2047 && f != 0) {
        None
    } else if e < 1023 {
        Some(0)
    } else if e <= 1075 {
        Some(saturate(m / two_to((1075 - e) as nat)))
    } else if e <= 1086 {
        Some(saturate(m * two_to((e - 1075) as nat)))
    } else {
        Some(usize::MAX as nat)
    }
}

pub open spec fn saturate(x: nat) -> nat {
    if x > usize::MAX { usize::MAX as nat } else { x }
}

fn index_from_number(b: u64) -> (r: Option<usize>)
    ensures
        r matches Some(i) ==> index_of_number(b) == Some(i as nat),
        r is None ==> index_of_number(b) is None,
{
    let e = (b / 0x10_0000_0000_0000) % 2048;
    let f = b % 0x10_0000_0000_0000;
    let m = f + 0x10_0000_0000_0000;
    if e == 0 && f == 0 {
        Some(0)
    } else if b / 0x8000_0000_0000_0000 != 0 || (e == 2047 && f != 0) {
        None
    } else if e < 1023 {
        Some(0)
    } else if e <= 1075 {
        let d = two_to_exec(1075 - e);
        proof { lemma_two_to_positive((1075 - e) as nat); }
        let q = m / d;
        if q as u128 > usize::MAX as u128 {
            Some(usize::MAX)
        } else {
            assert(q <= usize::MAX);
            Some(q as usize)
        }
    } else if e <= 1086 {
        let d = two_to_exec(e - 1075);
        proof {
            lemma_two_to_monotone((e - 1075) as nat, 11);
            reveal_with_fuel(two_to, 12);
            assert(m * d < 0x20_0000_0000_0000 * 2048) by (nonlinear_arith)
                requires m < 0x20_0000_0000_0000, d <= 2048;
        }
        let v = m * d;
        if v as u128 > usize::MAX as u128 {
            Some(usize::MAX)
        } else {
            Some(v as usize)
        }
    } else {
        Some(usize::MAX)
    }
}

proof fn lemma_two_to_positive(k: nat)
    ensures
        two_to(k) >= 1,
    decreases k,
{
    if k > 0 {
        lemma_two_to_positive((k - 1) as nat);
    }
}

impl Value {
    /// The property key for a value: a symbol or a string as it is; a
    /// number that is zero or above as its integer part (as `as usize`
    /// converts it); any other number (below zero, or NaN) as its text,
    /// which `number_text` writes. Other values have no key.
    pub fn to_object_key<F: Fn(u64) -> String>(&self, agent: &mut Agent, number_text: &F) -> (r: Result<ObjectKey, Value>)
        requires
            old(agent).wf(),
            forall|b: u64| number_text.requires((b,)),
        ensures
            *self is Number && index_of_number(self->Number_0) is None ==> r is Ok && r->Ok_0 is String
                && *final(agent) == *old(agent)
                && number_text.ensures((self->Number_0,), r->Ok_0->String_0),
            crate::engine::step(&*old(agent), &*final(agent)),
            *self is Symbol ==> r == Ok::<ObjectKey, Value>(ObjectKey::Symbol(self->Symbol_0)),
            *self is String ==> r == Ok::<ObjectKey, Value>(ObjectKey::String(self->String_0)),
            *self is Number && index_of_number(self->Number_0) is Some ==> r is Ok && r->Ok_0 is Number
                && r->Ok_0->Number_0 as nat == index_of_number(self->Number_0)->Some_0,
            !(*self is Symbol || *self is String || *self is Number) ==> r is Err
                && is_error_with(&*final(agent), r->Err_0, "cannot convert to object key"@),
    {
        match self {
            Value::Symbol(s) => Ok(ObjectKey::Symbol(s.duplicate())),
            Value::String(s) => Ok(ObjectKey::String(s.clone())),
            Value::Number(n) => {
                match index_from_number(*n) {
                    Some(i) => Ok(ObjectKey::Number(i)),
                    None => Ok(ObjectKey::String(number_text(*n))),
                }
            },
            _ => Err(agent.new_error("cannot convert to object key")),
        }
    }
}

/// The items of tuple record `x`, if it is one.
pub open spec fn tuple_items(h: &Heap, x: ObjRef) -> Seq<Value> {
    if h.valid(x) && h.kind(x) is Tuple {
        h.kind(x)->Tuple_0@
    } else {
        Seq::empty()
    }
}

/// Whether `x` is a tuple record of the heap.
pub open spec fn is_tuple_record(h: &Heap, x: ObjRef) -> bool {
    h.valid(x) && h.kind(x) is Tuple
}

/// Pairwise equality of two sequences of values as the language sees it:
/// equal lengths, and each pair equal. Two tuples are equal when their
/// items are (down to `fuel` levels of nesting); everything else compares
/// by `value_eq`.
pub open spec fn seq_eq(h: &Heap, xs: Seq<Value>, ys: Seq<Value>, fuel: nat) -> bool
    decreases fuel, xs.len(),
{
    if xs.len() != ys.len() {
        false
    } else if xs.len() == 0 {
        true
    } else {
        let a = xs.last();
        let b = ys.last();
        let last_eq = if a is Tuple && b is Tuple {
            fuel > 0 && is_tuple_record(h, a->Tuple_0) && is_tuple_record(h, b->Tuple_0)
                && seq_eq(h, tuple_items(h, a->Tuple_0), tuple_items(h, b->Tuple_0), (fuel - 1) as nat)
        } else {
            crate::value::value_eq(a, b)
        };
        last_eq && seq_eq(h, xs.drop_last(), ys.drop_last(), fuel)
    }
}

/// How deep `Value::eq` looks into nested tuples.
pub const TUPLE_DEPTH: usize = 512;

impl Value {
    /// Equality as the language sees it: primitives by content (numbers by
    /// IEEE-754 equality), objects by identity, tuples by length and item by
    /// item.
    pub fn eq(&self, agent: &Agent, other: &Value) -> (r: bool)
        ensures
            r == seq_eq(&agent.heap, seq![*self], seq![*other], TUPLE_DEPTH as nat),
    {
        value_equals_in(&agent.heap, self, other, TUPLE_DEPTH)
    }
}

fn value_equals_in(h: &Heap, a: &Value, b: &Value, fuel: usize) -> (r: bool)
    ensures
        r == seq_eq(h, seq![*a], seq![*b], fuel as nat),
    decreases fuel, 0nat,
{
    let ghost sa = seq![*a];
    let ghost sb = seq![*b];
    assert(sa.drop_last() =~= Seq::<Value>::empty());
    assert(sb.drop_last() =~= Seq::<Value>::empty());
    assert(sa.len() == 1 && sa.last() == *a && sb.len() == 1 && sb.last() == *b);
    assert(seq_eq(h, sa.drop_last(), sb.drop_last(), fuel as nat));
    if let (Value::Tuple(x), Value::Tuple(y)) = (a, b) {
        if fuel == 0 || !h.is_valid(*x) || !h.is_valid(*y) {
            return false;
        }
        let xs = match h.kind_of(*x) {
            ObjectKind::Tuple(xs) => xs,
            _ => {
                return false;
            },
        };
        let ys = match h.kind_of(*y) {
            ObjectKind::Tuple(ys) => ys,
            _ => {
                return false;
            },
        };
        assert(tuple_items(h, *x) == xs@);
        assert(tuple_items(h, *y) == ys@);
        let f1 = fuel - 1;
        assert(f1 as nat == ((fuel as nat) - 1) as nat);
        let r = seq_equals(h, xs, ys, f1);
        assert(r == seq_eq(h, tuple_items(h, *x), tuple_items(h, *y), ((fuel as nat) - 1) as nat));
        return r;
    }
    a.equals(b)
}

fn seq_equals(h: &Heap, xs: &Vec<Value>, ys: &Vec<Value>, fuel: usize) -> (r: bool)
    ensures
        r == seq_eq(h, xs@, ys@, fuel as nat),
    decreases fuel, 1nat,
{
    if xs.len() != ys.len() {
        return false;
    }
    let mut all = true;
    let mut i: usize = 0;
    assert(xs@.take(0).len() == 0 && ys@.take(0).len() == 0);
    while i < xs.len()
        invariant
            xs@.len() == ys@.len(),
            i <= xs@.len(),
            all == seq_eq(h, xs@.take(i as int), ys@.take(i as int), fuel as nat),
        decreases xs@.len() - i,
    {
        let e = value_equals_in(h, &xs[i], &ys[i], fuel);
        proof {
            let tx = xs@.take(i + 1);
            let ty = ys@.take(i + 1);
            assert(tx.drop_last() =~= xs@.take(i as int));
            assert(ty.drop_last() =~= ys@.take(i as int));
            assert(tx.last() == xs@[i as int]);
            assert(ty.last() == ys@[i as int]);
            assert(seq![xs@[i as int]].last() == xs@[i as int]);
            assert(seq![ys@[i as int]].last() == ys@[i as int]);
            assert(seq![xs@[i as int]].drop_last() =~= Seq::<Value>::empty());
            assert(seq![ys@[i as int]].drop_last() =~= Seq::<Value>::empty());
            assert(seq_eq(h, seq![xs@[i as int]].drop_last(), seq![ys@[i as int]].drop_last(), fuel as nat));
            assert(tx.len() == ty.len());
            assert(tx.len() > 0);
        }
        all = all && e;
        i = i + 1;
    }
    assert(xs@.take(xs@.len() as int) =~= xs@);
    assert(ys@.take(ys@.len() as int) =~= ys@);
    all
}

/// A copy of `slots` in which `key` holds `value`: the first slot of that
/// name is replaced, or a slot is added.
fn slots_with(slots: &SlotTable, key: &str, value: Value) -> (r: SlotTable)
    ensures
        slot_lookup(r@, key@) == Some(value),
        forall|name: Seq<char>| name != key@ ==> slot_lookup(r@, name) == slot_lookup(slots@, name),
{
    let mut out: SlotTable = Vec::new();
    out.push((key.to_owned(), value));
    let mut i: usize = 0;
    while i < slots.len()
        invariant
            i <= slots@.len(),
            out@.len() == i + 1,
            out@[0].0@ == key@,
            out@[0].1 == value,
            forall|j: int| 0 < j <= i ==> #[trigger] out@[j] == slots@[j - 1],
        decreases slots@.len() - i,
    {
        let name = slots[i].0.clone();
        let v = slots[i].1.duplicate();
        out.push((name, v));
        i = i + 1;
    }
    proof {
        assert(out@.drop_first() =~= slots@);
        assert forall|name: Seq<char>| name != key@ implies slot_lookup(out@, name) == slot_lookup(slots@, name) by {
        }
    }
    out
}

} // verus!
