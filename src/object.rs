//! Objects, their kinds, and the heap arena that owns them.
use vstd::prelude::*;
use indexmap::IndexMap;
use crate::key::{KeyModel, ObjectKey, lemma_key_le_total, lemma_key_le_trans};
use crate::table::{find_entry, has_key, keys_unique, lemma_find_entry, table_entries, table_get_index, table_index_of, table_insert, table_len, table_new};
use crate::value::{ObjRef, Value};

verus! {

/// How a bytecode function body runs.
#[derive(Clone, Copy, Debug, PartialEq, Eq, Structural)]
pub enum Discipline {
    Normal,
    Generator,
    Async,
}

/// What the interpreter needs to run a compiled function body.
#[derive(Debug)]
pub struct FunctionInfo {
    pub discipline: Discipline,
    pub arrow: bool,
    pub parameters: Vec<String>,
    pub position: usize,
    pub scope: usize,
}

#[derive(Clone, Copy, Debug, PartialEq, Eq, Structural)]
pub enum PromiseState {
    Pending,
    Fulfilled,
    Rejected,
}

#[derive(Clone, Copy, Debug, PartialEq, Eq, Structural)]
pub enum ReactionKind {
    Fulfill,
    Reject,
}

/// A promise capability: a promise and the two functions that settle it.
#[derive(Debug)]
pub struct Capability {
    pub promise: Value,
    pub resolve: Value,
    pub reject: Value,
}

/// A queued reaction: fired once when its source promise settles.
#[derive(Debug)]
pub struct Reaction {
    pub kind: ReactionKind,
    pub capability: Option<Capability>,
    pub handler: Value,
}

/// The entry points of the engine's own native functions, each with the
/// state it carries.
#[derive(Debug)]
pub enum NativeFn {
    /// A native function that the embedder supplies, by id.
    Host(u64),
    ResolveFunction { promise: ObjRef, guard: ObjRef },
    RejectFunction { promise: ObjRef, guard: ObjRef },
    CapabilityExecutor { resolve: Value, reject: Value },
    PromiseConstructor,
    PromiseResolve,
    PromiseReject,
    Then,
    Catch,
    Finally,
    ThenFinally { constructor: Value, on_finally: Value },
    CatchFinally { constructor: Value, on_finally: Value },
    ValueThunk(Value),
    ValueThrower(Value),
    ErrorToString,
    ReturnThis,
    AwaitFulfilled { continuation: usize, resolve: Value, reject: Value },
    AwaitRejected { continuation: usize, resolve: Value, reject: Value },
    CreateTimeout,
    FileOp(FileOp),
}

/// The file operations of the filesystem module.
#[derive(Clone, Copy, Debug, PartialEq, Eq, Structural)]
pub enum FileOp {
    ReadFile,
    WriteFile,
    RemoveFile,
    GetMetadata,
    Copy,
    Move,
    CreateSymbolicLink,
    Exists,
    CreateDirectory,
    RemoveDirectory,
}

impl Capability {
    pub fn duplicate(&self) -> (r: Capability)
        ensures
            r == *self,
    {
        Capability {
            promise: self.promise.duplicate(),
            resolve: self.resolve.duplicate(),
            reject: self.reject.duplicate(),
        }
    }
}

impl Reaction {
    pub fn duplicate(&self) -> (r: Reaction)
        ensures
            r == *self,
    {
        let capability = match &self.capability {
            Some(c) => Some(c.duplicate()),
            None => None,
        };
        Reaction { kind: self.kind, capability, handler: self.handler.duplicate() }
    }
}

impl NativeFn {
    pub fn duplicate(&self) -> (r: NativeFn)
        ensures
            r == *self,
    {
        match self {
            NativeFn::Host(id) => NativeFn::Host(*id),
            NativeFn::ResolveFunction { promise, guard } => NativeFn::ResolveFunction { promise: *promise, guard: *guard },
            NativeFn::RejectFunction { promise, guard } => NativeFn::RejectFunction { promise: *promise, guard: *guard },
            NativeFn::CapabilityExecutor { resolve, reject } => NativeFn::CapabilityExecutor {
                resolve: resolve.duplicate(),
                reject: reject.duplicate(),
            },
            NativeFn::PromiseConstructor => NativeFn::PromiseConstructor,
            NativeFn::PromiseResolve => NativeFn::PromiseResolve,
            NativeFn::PromiseReject => NativeFn::PromiseReject,
            NativeFn::Then => NativeFn::Then,
            NativeFn::Catch => NativeFn::Catch,
            NativeFn::Finally => NativeFn::Finally,
            NativeFn::ThenFinally { constructor, on_finally } => NativeFn::ThenFinally {
                constructor: constructor.duplicate(),
                on_finally: on_finally.duplicate(),
            },
            NativeFn::CatchFinally { constructor, on_finally } => NativeFn::CatchFinally {
                constructor: constructor.duplicate(),
                on_finally: on_finally.duplicate(),
            },
            NativeFn::ValueThunk(v) => NativeFn::ValueThunk(v.duplicate()),
            NativeFn::ValueThrower(v) => NativeFn::ValueThrower(v.duplicate()),
            NativeFn::ErrorToString => NativeFn::ErrorToString,
            NativeFn::ReturnThis => NativeFn::ReturnThis,
            NativeFn::AwaitFulfilled { continuation, resolve, reject } => NativeFn::AwaitFulfilled {
                continuation: *continuation,
                resolve: resolve.duplicate(),
                reject: reject.duplicate(),
            },
            NativeFn::AwaitRejected { continuation, resolve, reject } => NativeFn::AwaitRejected {
                continuation: *continuation,
                resolve: resolve.duplicate(),
                reject: reject.duplicate(),
            },
            NativeFn::CreateTimeout => NativeFn::CreateTimeout,
            NativeFn::FileOp(op) => NativeFn::FileOp(*op),
        }
    }
}

/// Internal slots: engine-private named values, first match wins.
pub type SlotTable = Vec<(String, Value)>;

/// What kind of object this is, with the state that kind carries.
#[derive(Debug)]
pub enum ObjectKind {
    Ordinary,
    Array,
    Boolean(bool),
    String(String),
    Number(u64),
    Regex { source: String, compiled: regex::Regex },
    Buffer(Vec<u8>),
    BytecodeFunction(FunctionInfo),
    BuiltinFunction(NativeFn, SlotTable),
    Custom(SlotTable),
    Promise {
        state: PromiseState,
        result: Value,
        fulfill_reactions: Vec<Reaction>,
        reject_reactions: Vec<Reaction>,
    },
    /// The "already resolved" flag that a resolving-function pair shares.
    ResolveGuard(bool),
    Tuple(Vec<Value>),
}

#[verifier::external_type_specification]
#[verifier::external_body]
pub struct ExRegex(regex::Regex);

/// An object: its kind, its own properties in insertion order, and its
/// prototype (`Null` or an object).
pub struct ObjectInfo {
    pub kind: ObjectKind,
    properties: IndexMap<usize, Value>,
    prototype: Value,
}

impl ObjectInfo {
    pub closed spec fn entries(&self) -> Seq<(usize, Value)> {
        table_entries(self.properties)
    }

    pub closed spec fn proto(&self) -> Value {
        self.prototype
    }
}

/// A prototype is `Null` or an object made earlier than the one that has it,
/// so prototype chains end.
pub open spec fn proto_ok(p: Value, i: int) -> bool {
    match p {
        Value::Null => true,
        Value::Object(r) => r.0 < i,
        _ => false,
    }
}

/// The keys of entries `e` that enumeration shows: all but private
/// symbols, in insertion order.
pub open spec fn visible_keys(ks: Seq<ObjectKey>, e: Seq<(usize, Value)>) -> Seq<ObjectKey>
    decreases e.len(),
{
    if e.len() == 0 {
        Seq::empty()
    } else {
        let rest = visible_keys(ks, e.drop_last());
        let k = ks[e.last().0 as int];
        if k.is_private_spec() {
            rest
        } else {
            rest.push(k)
        }
    }
}

/// Sorted in enumeration order.
pub open spec fn keys_sorted(s: Seq<ObjectKey>) -> bool {
    forall|i: int, j: int| #![trigger s[i], s[j]] 0 <= i < j < s.len() ==> s[i].le_spec(&s[j])
}

/// The heap arena: every object, and the table of interned property keys.
pub struct Heap {
    objects: Vec<ObjectInfo>,
    keys: Vec<ObjectKey>,
}

impl Heap {
    pub closed spec fn len(&self) -> nat {
        self.objects@.len()
    }

    pub closed spec fn object(&self, r: ObjRef) -> ObjectInfo {
        self.objects@[r.0 as int]
    }

    pub closed spec fn key_table(&self) -> Seq<ObjectKey> {
        self.keys@
    }

    pub open spec fn valid(&self, r: ObjRef) -> bool {
        r.0 < self.len()
    }

    pub closed spec fn kind(&self, r: ObjRef) -> ObjectKind {
        self.object(r).kind
    }

    pub closed spec fn wf(&self) -> bool {
        &&& forall|i: int| 0 <= i < self.objects@.len() ==> #[trigger] self.object_wf(i)
        &&& forall|a: int, b: int| #![trigger self.keys@[a], self.keys@[b]]
            0 <= a < self.keys@.len() && 0 <= b < self.keys@.len() && a != b
                ==> self.keys@[a].model() != self.keys@[b].model()
    }

    pub closed spec fn object_wf(&self, i: int) -> bool {
        let o = self.objects@[i];
        &&& proto_ok(o.prototype, i)
        &&& keys_unique(table_entries(o.properties))
        &&& forall|j: int| 0 <= j < table_entries(o.properties).len()
            ==> (#[trigger] table_entries(o.properties)[j]).0 < self.keys@.len()
    }

    /// The id under which `k` is interned, if it is.
    pub closed spec fn key_id(&self, k: KeyModel) -> Option<usize> {
        if exists|i: int| 0 <= i < self.keys@.len() && self.keys@[i].model() == k {
            Some((choose|i: int| 0 <= i < self.keys@.len() && self.keys@[i].model() == k) as usize)
        } else {
            None
        }
    }

    /// The value of property `id` on object `i` or the nearest object of its
    /// prototype chain that has it; a private key is looked up on `i` alone.
    pub closed spec fn lookup_id(&self, i: nat, id: usize, private: bool) -> Value
        decreases i,
    {
        if i >= self.objects@.len() {
            Value::Null
        } else {
            let e = table_entries(self.objects@[i as int].properties);
            let j = find_entry(e, id);
            if j >= 0 {
                e[j].1
            } else if private {
                Value::Null
            } else {
                match self.objects@[i as int].prototype {
                    Value::Object(p) => if p.0 < i {
                        self.lookup_id(p.0 as nat, id, private)
                    } else {
                        Value::Null
                    },
                    _ => Value::Null,
                }
            }
        }
    }

    pub proof fn lemma_key_id(&self, km: KeyModel)
        requires
            self.wf(),
        ensures
            self.key_id(km) matches Some(id) ==> id < self.key_table().len() && self.key_table()[id as int].model() == km,
            self.key_id(km) is None ==> forall|i: int| 0 <= i < self.key_table().len() ==> self.key_table()[i].model() != km,
    {
        assert(self.keys.len() == self.keys@.len());
    }

    /// What `get` finds for key `k` on object `r`.
    pub open spec fn lookup(&self, r: ObjRef, k: ObjectKey) -> Value {
        self.lookup_m(r, k.model())
    }

    pub open spec fn lookup_m(&self, r: ObjRef, km: KeyModel) -> Value {
        match self.key_id(km) {
            Some(id) => self.lookup_id(r.0 as nat, id, km.private()),
            None => Value::Null,
        }
    }

    /// The own value of key `k` on object `r`, if it has one.
    pub open spec fn own(&self, r: ObjRef, k: ObjectKey) -> Option<Value> {
        self.own_m(r, k.model())
    }

    pub open spec fn own_m(&self, r: ObjRef, km: KeyModel) -> Option<Value> {
        match self.key_id(km) {
            Some(id) => {
                let e = self.object(r).entries();
                if has_key(e, id) {
                    Some(e[find_entry(e, id)].1)
                } else {
                    None
                }
            },
            None => None,
        }
    }

    /// Whether `k` is an own property of `r` or of an object on its chain.
    pub open spec fn on_chain(&self, r: ObjRef, k: ObjectKey) -> bool
        decreases r.0,
    {
        if !self.valid(r) {
            false
        } else if self.own(r, k) is Some {
            true
        } else {
            match self.object(r).proto() {
                Value::Object(p) => p.0 < r.0 && self.on_chain(p, k),
                _ => false,
            }
        }
    }

    pub fn new() -> (h: Heap)
        ensures
            h.wf(),
            h.len() == 0,
    {
        Heap { objects: Vec::new(), keys: Vec::new() }
    }

    pub fn size(&self) -> (n: usize)
        ensures
            n == self.len(),
    {
        self.objects.len()
    }

    pub fn is_valid(&self, r: ObjRef) -> (b: bool)
        ensures
            b == self.valid(r),
    {
        r.0 < self.objects.len()
    }

    /// A new object with no own properties.
    pub fn allocate(&mut self, kind: ObjectKind, prototype: Value) -> (r: ObjRef)
        requires
            old(self).wf(),
            proto_ok(prototype, old(self).len() as int),
        ensures
            final(self).wf(),
            r.0 == old(self).len(),
            final(self).len() == old(self).len() + 1,
            final(self).kind(r) == kind,
            final(self).object(r).entries() == Seq::<(usize, Value)>::empty(),
            final(self).object(r).proto() == prototype,
            final(self).key_table() == old(self).key_table(),
            forall|q: ObjRef| old(self).valid(q) ==> final(self).object(q) == old(self).object(q),
            forall|q: ObjRef| old(self).valid(q) ==> final(self).kind(q) == old(self).kind(q),
            old(self).evolves_to(&*final(self)),
    {
        let o = ObjectInfo { kind, properties: table_new(), prototype };
        let n = self.objects.len();
        self.objects.push(o);
        assert forall|i: int| 0 <= i < self.objects@.len() implies #[trigger] self.object_wf(i) by {
            if i < n {
                assert(old(self).object_wf(i));
            }
        }
        proof {
            assert forall|q: ObjRef| old(self).valid(q) implies kind_stays(#[trigger] old(self).kind(q), self.kind(q)) by {
                lemma_kind_stays_refl(old(self).kind(q));
            }
        }
        ObjRef(n)
    }

    pub fn kind_of(&self, r: ObjRef) -> (k: &ObjectKind)
        requires
            self.valid(r),
        ensures
            *k == self.kind(r),
    {
        &self.objects[r.0].kind
    }

    /// Replace the kind of object `r`; nothing else changes.
    pub fn set_kind(&mut self, r: ObjRef, kind: ObjectKind)
        requires
            old(self).wf(),
            old(self).valid(r),
            kind_stays(old(self).kind(r), kind),
        ensures
            old(self).evolves_to(&*final(self)),
            forall|q: ObjRef| old(self).valid(q) && q != r ==> final(self).kind(q) == old(self).kind(q),
            final(self).wf(),
            final(self).len() == old(self).len(),
            final(self).kind(r) == kind,
            final(self).object(r).entries() == old(self).object(r).entries(),
            final(self).object(r).proto() == old(self).object(r).proto(),
            final(self).key_table() == old(self).key_table(),
            forall|q: ObjRef| old(self).valid(q) && q != r ==> final(self).object(q) == old(self).object(q),
    {
        let o = &mut self.objects[r.0];
        o.kind = kind;
        assert forall|i: int| 0 <= i < self.objects@.len() implies #[trigger] self.object_wf(i) by {
            assert(old(self).object_wf(i));
        }
        proof {
            assert forall|q: ObjRef| old(self).valid(q) implies kind_stays(#[trigger] old(self).kind(q), self.kind(q)) by {
                if q != r {
                    lemma_kind_stays_refl(old(self).kind(q));
                }
            }
        }
    }

    pub fn prototype_of(&self, r: ObjRef) -> (p: &Value)
        requires
            self.valid(r),
        ensures
            *p == self.object(r).proto(),
    {
        &self.objects[r.0].prototype
    }

    /// The id of key `k` in the key table, if it was interned.
    pub fn find_key(&self, k: &ObjectKey) -> (r: Option<usize>)
        requires
            self.wf(),
        ensures
            r == self.key_id(k.model()),
            r matches Some(id) ==> id < self.key_table().len() && self.key_table()[id as int].model() == k.model(),
    {
        let mut i: usize = 0;
        while i < self.keys.len()
            invariant
                self.wf(),
                i <= self.keys@.len(),
                forall|j: int| 0 <= j < i ==> self.keys@[j].model() != k.model(),
            decreases self.keys@.len() - i,
        {
            if self.keys[i].same_key(k) {
                assert(self.keys@[i as int].model() == k.model());
                let ghost c = choose|j: int| 0 <= j < self.keys@.len() && self.keys@[j].model() == k.model();
                assert(0 <= c < self.keys@.len() && self.keys@[c].model() == k.model());
                assert(self.keys@[c] == self.keys@[c] && self.keys@[i as int] == self.keys@[i as int]);
                assert(c == i);
                return Some(i);
            }
            i = i + 1;
        }
        None
    }

    /// The id of key `k`, interning it first if it is new.
    pub fn intern(&mut self, k: &ObjectKey) -> (id: usize)
        requires
            old(self).wf(),
        ensures
            final(self).wf(),
            final(self).key_id(k.model()) == Some(id),
            id < final(self).key_table().len(),
            final(self).key_table().len() >= old(self).key_table().len(),
            old(self).key_id(k.model()) is Some ==> final(self).key_id(k.model()) == old(self).key_id(k.model()),
            old(self).key_id(k.model()) is None ==> id == old(self).key_table().len(),
            forall|km: KeyModel| km != k.model() ==> final(self).key_id(km) == old(self).key_id(km),
            final(self).len() == old(self).len(),
            forall|q: ObjRef| old(self).valid(q) ==> final(self).object(q) == old(self).object(q),
    {
        match self.find_key(k) {
            Some(id) => id,
            None => {
                let n = self.keys.len();
                let kk = k.duplicate();
                self.keys.push(kk);
                assert(self.keys@[n as int].model() == k.model());
                assert forall|i: int| 0 <= i < self.objects@.len() implies #[trigger] self.object_wf(i) by {
                    assert(old(self).object_wf(i));
                }
                let ghost c = choose|j: int| 0 <= j < self.keys@.len() && self.keys@[j].model() == k.model();
                assert(c == n as int) by {
                    if c != n as int {
                        assert(old(self).keys@[c].model() == k.model());
                    }
                }
                assert forall|km: KeyModel| km != k.model() implies self.key_id(km) == old(self).key_id(km) by {
                    if exists|i: int| 0 <= i < self.keys@.len() && self.keys@[i].model() == km {
                        let i = choose|i: int| 0 <= i < self.keys@.len() && self.keys@[i].model() == km;
                        assert(old(self).keys@[i].model() == km);
                    }
                    if exists|i: int| 0 <= i < old(self).keys@.len() && old(self).keys@[i].model() == km {
                        let i = choose|i: int| 0 <= i < old(self).keys@.len() && old(self).keys@[i].model() == km;
                        assert(self.keys@[i].model() == km);
                    }
                }
                n
            },
        }
    }
}

impl Heap {
    /// The value of key `k` as `get` sees it on object `r`: its own value,
    /// else the nearest on its prototype chain, else `Null`; a private symbol
    /// is looked up on `r` alone.
    pub fn get_property(&self, r: ObjRef, k: &ObjectKey) -> (v: Value)
        requires
            self.wf(),
            self.valid(r),
        ensures
            v == self.lookup(r, *k),
    {
        let id = match self.find_key(k) {
            Some(id) => id,
            None => {
                return Value::Null;
            },
        };
        let private = k.is_private();
        let mut cur: usize = r.0;
        loop
            invariant
                self.wf(),
                cur < self.objects@.len(),
                self.lookup_id(r.0 as nat, id, private) == self.lookup_id(cur as nat, id, private),
                self.key_id(k.model()) == Some(id),
                private == k.is_private_spec(),
            decreases cur,
        {
            let o = &self.objects[cur];
            proof {
                assert(self.object_wf(cur as int));
                lemma_find_entry(table_entries(o.properties), id);
            }
            match table_index_of(&o.properties, id) {
                Some(j) => {
                    match table_get_index(&o.properties, j) {
                        Some(p) => {
                            return p.1.duplicate();
                        },
                        None => {
                            return Value::Null;
                        },
                    }
                },
                None => {
                    if private {
                        return Value::Null;
                    }
                    match &o.prototype {
                        Value::Object(p) => {
                            cur = p.0;
                        },
                        _ => {
                            return Value::Null;
                        },
                    }
                },
            }
        }
    }

    /// Write `v` as an own property of `r` under key `k`. Whatever the
    /// prototype chain holds, the write lands on `r` itself.
    pub fn set_property(&mut self, r: ObjRef, k: &ObjectKey, v: Value)
        requires
            old(self).wf(),
            old(self).valid(r),
        ensures
            final(self).object(r).entries().len() <= old(self).object(r).entries().len() + 1,
            forall|j: int| 0 <= j < old(self).object(r).entries().len() ==> #[trigger] final(self).object(r).entries()[j].0
                == old(self).object(r).entries()[j].0,
            forall|q: ObjRef| old(self).valid(q) && q != r ==> #[trigger] final(self).object(q) == old(self).object(q),
            final(self).wf(),
            final(self).len() == old(self).len(),
            final(self).own(r, *k) == Some(v),
            final(self).lookup(r, *k) == v,
            forall|q: ObjRef| old(self).valid(q) ==> final(self).kind(q) == old(self).kind(q),
            forall|q: ObjRef| old(self).valid(q) ==> final(self).object(q).proto() == old(self).object(q).proto(),
            old(self).evolves_to(&*final(self)),
            forall|q: ObjRef, k2: ObjectKey|
                old(self).valid(q) && (q != r || k2.model() != k.model())
                    ==> #[trigger] final(self).own(q, k2) == old(self).own(q, k2),
    {
        let id = self.intern(k);
        let ghost mid = *self;
        let o = &mut self.objects[r.0];
        table_insert(&mut o.properties, id, v);
        proof {
            assert forall|q: ObjRef| old(self).valid(q) implies kind_stays(#[trigger] old(self).kind(q), self.kind(q)) by {
                lemma_kind_stays_refl(old(self).kind(q));
            }
            let e0 = table_entries(mid.objects@[r.0 as int].properties);
            let e1 = table_entries(self.objects@[r.0 as int].properties);
            assert(mid.object_wf(r.0 as int));
            assert forall|i: int| 0 <= i < self.objects@.len() implies #[trigger] self.object_wf(i) by {
                assert(mid.object_wf(i));
                if i == r.0 {
                    assert forall|j: int| 0 <= j < e1.len() implies (#[trigger] e1[j]).0 < self.keys@.len() by {
                        if has_key(e0, id) {
                            let x = choose|x: int| 0 <= x < e0.len() && e0[x].0 == id && e1 == e0.update(x, (id, v));
                            if j != x { assert(e1[j] == e0[j]); }
                        } else {
                            if j < e0.len() { assert(e1[j] == e0[j]); }
                        }
                    }
                }
            }
            assert(mid.objects@[r.0 as int] == old(self).objects@[r.0 as int]);
            assert forall|j: int| 0 <= j < e0.len() implies #[trigger] e1[j].0 == e0[j].0 by {
                if has_key(e0, id) {
                    let x = choose|x: int| 0 <= x < e0.len() && e0[x].0 == id && e1 == e0.update(x, (id, v));
                } else {
                    assert(e1[j] == e0[j]);
                }
            }
            lemma_find_entry(e1, id);
            lemma_find_entry(e0, id);
            assert(has_key(e1, id)) by {
                if has_key(e0, id) {
                    let x = choose|x: int| 0 <= x < e0.len() && e0[x].0 == id && e1 == e0.update(x, (id, v));
                    assert(e1[x].0 == id);
                } else {
                    assert(e1[e0.len() as int].0 == id);
                }
            }
            assert(e1[find_entry(e1, id)].1 == v) by {
                if has_key(e0, id) {
                    let x = choose|x: int| 0 <= x < e0.len() && e0[x].0 == id && e1 == e0.update(x, (id, v));
                    assert(e1[x].0 == id);
                } else {
                    assert(e1[e0.len() as int].0 == id);
                }
            }
            assert(self.key_id(k.model()) == Some(id));
            assert forall|q: ObjRef, k2: ObjectKey|
                old(self).valid(q) && (q != r || k2.model() != k.model())
                    implies #[trigger] self.own(q, k2) == old(self).own(q, k2) by {
                if q != r {
                    assert(self.objects@[q.0 as int] == mid.objects@[q.0 as int]);
                    assert(mid.object(q) == old(self).object(q));
                    assert(self.object(q) == old(self).object(q));
                }
                if k2.model() == k.model() {
                    assert(q != r);
                    if old(self).key_id(k.model()) is None {
                        let eq = table_entries(old(self).objects@[q.0 as int].properties);
                        assert(old(self).object_wf(q.0 as int));
                        assert(!has_key(eq, id));
                    }
                }
                if k2.model() != k.model() {
                    assert(self.key_id(k2.model()) == old(self).key_id(k2.model()));
                    old(self).lemma_key_id(k2.model());
                    self.lemma_key_id(k2.model());
                    self.lemma_key_id(k.model());
                    match old(self).key_id(k2.model()) {
                        Some(id2) => {
                            assert(id2 != id);
                            if q == r {
                                lemma_find_entry(e0, id2);
                                lemma_find_entry(e1, id2);
                                assert(self.object_wf(r.0 as int));
                                assert(keys_unique(e1));
                                assert(keys_unique(e0));
                                if has_key(e0, id2) {
                                    let y = find_entry(e0, id2);
                                    assert(e1[y] == e0[y]) by {
                                        if has_key(e0, id) {
                                            let x = choose|x: int| 0 <= x < e0.len() && e0[x].0 == id && e1 == e0.update(x, (id, v));
                                            assert(x != y);
                                        }
                                    }
                                    assert(find_entry(e1, id2) == y);
                                }
                                if has_key(e1, id2) {
                                    let y = find_entry(e1, id2);
                                    if has_key(e0, id) {
                                        let x = choose|x: int| 0 <= x < e0.len() && e0[x].0 == id && e1 == e0.update(x, (id, v));
                                        assert(x != y);
                                        assert(e0[y].0 == id2);
                                    } else {
                                        assert(y < e0.len());
                                        assert(e0[y].0 == id2);
                                    }
                                }
                            }
                        },
                        None => {},
                    }
                }
            }
        }
    }
}

impl Heap {
    /// The keys that enumeration shows on object `r`, in insertion order.
    pub open spec fn own_keys(&self, r: ObjRef) -> Seq<ObjectKey> {
        visible_keys(self.key_table(), self.object(r).entries())
    }

    /// The enumerable own keys of `r`: no private symbols, sorted with
    /// indices first, then strings, then symbols.
    pub fn keys_of(&self, r: ObjRef) -> (out: Vec<ObjectKey>)
        requires
            self.wf(),
            self.valid(r),
        ensures
            keys_sorted(out@),
            out@.to_multiset() == self.own_keys(r).to_multiset(),
    {
        let o = &self.objects[r.0];
        let n = table_len(&o.properties);
        let ghost e = table_entries(o.properties);
        proof { assert(self.object_wf(r.0 as int)); }
        let mut found: Vec<ObjectKey> = Vec::new();
        let mut i: usize = 0;
        while i < n
            invariant
                self.wf(),
                self.valid(r),
                *o == self.objects@[r.0 as int],
                e == table_entries(o.properties),
                n == e.len(),
                i <= n,
                forall|j: int| 0 <= j < e.len() ==> (#[trigger] e[j]).0 < self.keys@.len(),
                found@ == visible_keys(self.keys@, e.take(i as int)),
            decreases n - i,
        {
            assert(e.take(i + 1).drop_last() =~= e.take(i as int));
            assert(e.take(i + 1).last() == e[i as int]);
            match table_get_index(&o.properties, i) {
                Some(p) => {
                    let id = *p.0;
                    assert(id == e[i as int].0);
                    assert(id < self.keys@.len());
                    let nk = self.keys.len();
                    assert(id < nk);
                    let k = &self.keys[id as usize];
                    assert(*k == self.keys@[e.take(i + 1).last().0 as int]);
                    if !k.is_private() {
                        found.push(k.duplicate());
                    }
                },
                None => {},
            }
            i = i + 1;
        }
        assert(e.take(n as int) =~= e);
        let mut sorted: Vec<ObjectKey> = Vec::new();
        let mut i: usize = 0;
        proof {
            assert(found@.take(0) =~= Seq::<ObjectKey>::empty());
            assert(sorted@ =~= Seq::<ObjectKey>::empty());
            vstd::seq_lib::to_multiset_len(sorted@);
            vstd::seq_lib::to_multiset_len(found@.take(0));
            assert(sorted@.to_multiset() =~= found@.take(0).to_multiset());
        }
        while i < found.len()
            invariant
                i <= found@.len(),
                keys_sorted(sorted@),
                sorted@.to_multiset() == found@.take(i as int).to_multiset(),
            decreases found@.len() - i,
        {
            let x = &found[i];
            let mut p: usize = 0;
            while p < sorted.len() && sorted[p].le(x)
                invariant
                    p <= sorted@.len(),
                    forall|j: int| 0 <= j < p ==> (#[trigger] sorted@[j]).le_spec(x),
                decreases sorted@.len() - p,
            {
                p = p + 1;
            }
            let ghost before = sorted@;
            sorted.insert(p, x.duplicate());
            proof {
                assert(sorted@ == before.insert(p as int, *x));
                vstd::seq_lib::to_multiset_insert(before, p as int, *x);
                assert(found@.take(i + 1) =~= found@.take(i as int).push(*x));
                vstd::seq_lib::to_multiset_build(found@.take(i as int), *x);
                assert forall|a: int, b: int| 0 <= a < b < sorted@.len() implies sorted@[a].le_spec(&sorted@[b]) by {
                    if p < before.len() {
                        lemma_key_le_total(*x, before[p as int]);
                    }
                    if a < p && b == p {
                    } else if a < p && b > p {
                        assert(before[a].le_spec(&before[b - 1]));
                    } else if a == p && b > p {
                        assert(before[p as int].le_spec(&before[b - 1]) || b - 1 == p);
                        if b - 1 != p {
                            lemma_key_le_trans(*x, before[p as int], before[b - 1]);
                        }
                    } else if a > p {
                        assert(before[a - 1].le_spec(&before[b - 1]));
                    } else {
                        assert(before[a].le_spec(&before[b]));
                    }
                }
            }
            i = i + 1;
        }
        assert(found@.take(found@.len() as int) =~= found@);
        sorted
    }
}

/// Object kinds whose state is final: a guard that has fired, and a promise
/// that has settled.
pub open spec fn kind_stays(a: ObjectKind, b: ObjectKind) -> bool {
    match a {
        ObjectKind::ResolveGuard(fired) => fired ==> b == ObjectKind::ResolveGuard(true),
        ObjectKind::Promise { state, result, .. } => b is Promise && (state != PromiseState::Pending ==> (
            b->Promise_state == state && b->Promise_result == result)),
        ObjectKind::BuiltinFunction(n, _) => b is BuiltinFunction && native_stays(n, b->BuiltinFunction_0),
        _ => true,
    }
}

/// A native function keeps its entry point; only a capability executor
/// changes the functions it has recorded.
pub open spec fn native_stays(n: NativeFn, m: NativeFn) -> bool {
    match n {
        NativeFn::CapabilityExecutor { .. } => m is CapabilityExecutor,
        _ => m == n,
    }
}

impl Heap {
    /// How the heap may change over time: objects are only added, a fired
    /// guard stays fired, a promise stays a promise, and a settled promise
    /// keeps its state and result.
    pub open spec fn evolves_to(&self, new: &Heap) -> bool {
        &&& new.len() >= self.len()
        &&& forall|r: ObjRef| self.valid(r) ==> kind_stays(#[trigger] self.kind(r), new.kind(r))
    }
}

pub proof fn lemma_kind_stays_refl(k: ObjectKind)
    ensures
        kind_stays(k, k),
{
    match k {
        ObjectKind::Promise { state, result, .. } => {},
        ObjectKind::BuiltinFunction(n, _) => {
            match n {
                NativeFn::CapabilityExecutor { .. } => {},
                _ => {},
            }
        },
        _ => {},
    }
}

pub proof fn lemma_evolves_refl(h: &Heap)
    ensures
        h.evolves_to(h),
{
    assert forall|r: ObjRef| h.valid(r) implies kind_stays(#[trigger] h.kind(r), h.kind(r)) by {
        match h.kind(r) {
            ObjectKind::Promise { state, result, .. } => {},
            _ => {},
        }
    }
}

pub proof fn lemma_evolves_trans(a: &Heap, b: &Heap, c: &Heap)
    requires
        a.evolves_to(b),
        b.evolves_to(c),
    ensures
        a.evolves_to(c),
{
    assert forall|r: ObjRef| a.valid(r) implies kind_stays(#[trigger] a.kind(r), c.kind(r)) by {
        assert(kind_stays(a.kind(r), b.kind(r)));
        assert(b.valid(r));
        assert(kind_stays(b.kind(r), c.kind(r)));
    }
}

/// An own property is what a read finds.
pub proof fn lemma_own_is_found(h: &Heap, r: ObjRef, km: KeyModel)
    requires
        h.wf(),
        h.valid(r),
        h.own_m(r, km) is Some,
    ensures
        h.lookup_m(r, km) == h.own_m(r, km)->Some_0,
{
    let id = h.key_id(km)->Some_0;
    lemma_find_entry(h.object(r).entries(), id);
}

/// Key ids depend on the key table alone.
pub proof fn lemma_key_id_same(a: &Heap, b: &Heap, km: KeyModel)
    requires
        a.key_table() == b.key_table(),
    ensures
        a.key_id(km) == b.key_id(km),
{
}

impl Heap {
    /// Release what object `r` holds: its properties, and all of its kind
    /// but the final state of a promise or a guard and the entry point of a
    /// native function. Its handle stays valid.
    pub fn release(&mut self, r: ObjRef)
        requires
            old(self).wf(),
            old(self).valid(r),
        ensures
            final(self).wf(),
            old(self).evolves_to(&*final(self)),
            final(self).len() == old(self).len(),
            final(self).key_table() == old(self).key_table(),
            final(self).object(r).entries().len() == 0,
            final(self).object(r).proto() == old(self).object(r).proto(),
            final(self).kind(r) matches ObjectKind::Promise { state, result, fulfill_reactions, reject_reactions }
                ==> fulfill_reactions@.len() == 0 && reject_reactions@.len() == 0,
            forall|q: ObjRef| old(self).valid(q) && q != r ==> final(self).object(q) == old(self).object(q),
    {
        let kind = match &self.objects[r.0].kind {
            ObjectKind::Promise { state, result, .. } => ObjectKind::Promise {
                state: *state,
                result: result.duplicate(),
                fulfill_reactions: Vec::new(),
                reject_reactions: Vec::new(),
            },
            ObjectKind::ResolveGuard(fired) => ObjectKind::ResolveGuard(*fired),
            ObjectKind::BuiltinFunction(f, _) => ObjectKind::BuiltinFunction(f.duplicate(), Vec::new()),
            _ => ObjectKind::Ordinary,
        };
        let o = &mut self.objects[r.0];
        o.kind = kind;
        o.properties = table_new();
        proof {
            assert forall|i: int| 0 <= i < self.objects@.len() implies #[trigger] self.object_wf(i) by {
                assert(old(self).object_wf(i));
            }
            assert forall|q: ObjRef| old(self).valid(q) implies kind_stays(#[trigger] old(self).kind(q), self.kind(q)) by {
                lemma_kind_stays_refl(old(self).kind(q));
            }
        }
    }

    /// Everything object `i` holds, as `object_values` lists it.
    pub fn values_of(&self, i: usize) -> (out: Vec<Value>)
        requires
            i < self.len(),
        ensures
            out@ == crate::collector::object_values(self, i),
    {
        let o = &self.objects[i];
        let mut out: Vec<Value> = Vec::new();
        out.push(o.prototype.duplicate());
        let n = table_len(&o.properties);
        let ghost e = table_entries(o.properties);
        let mut k: usize = 0;
        while k < n
            invariant
                *o == self.objects@[i as int],
                e == table_entries(o.properties),
                n == e.len(),
                k <= n,
                out@ == seq![o.prototype] + crate::collector::pair_values(e.take(k as int)),
            decreases n - k,
        {
            match table_get_index(&o.properties, k) {
                Some(p) => {
                    out.push(p.1.duplicate());
                },
                None => {},
            }
            assert(crate::collector::pair_values(e.take(k + 1)) =~= crate::collector::pair_values(e.take(k as int)).push(e[k as int].1));
            k = k + 1;
        }
        assert(e.take(n as int) =~= e);
        let ghost mid = out@;
        match &o.kind {
            ObjectKind::BuiltinFunction(f, slots) => {
                crate::collector::push_native_values(&mut out, f);
                crate::collector::push_slot_values(&mut out, slots);
            },
            ObjectKind::Custom(slots) => {
                crate::collector::push_slot_values(&mut out, slots);
            },
            ObjectKind::Promise { result, fulfill_reactions, reject_reactions, .. } => {
                out.push(result.duplicate());
                crate::collector::push_reaction_values(&mut out, fulfill_reactions);
                crate::collector::push_reaction_values(&mut out, reject_reactions);
            },
            ObjectKind::Tuple(items) => {
                crate::collector::push_values(&mut out, items);
            },
            _ => {},
        }
        assert(out@ =~= mid + crate::collector::kind_values(o.kind));
        out
    }
}

/// A key that neither an object nor any object on its prototype chain has
/// reads as `Null`.
pub proof fn lemma_absent_key_reads_null(h: &Heap, r: ObjRef, k: ObjectKey)
    requires
        h.wf(),
        h.valid(r),
        !h.on_chain(r, k),
    ensures
        h.lookup(r, k) == Value::Null,
    decreases r.0,
{
    match h.key_id(k.model()) {
        Some(id) => {
            let e = h.object(r).entries();
            lemma_find_entry(e, id);
            assert(h.own(r, k) is None);
            assert(find_entry(e, id) == -1);
            if !k.is_private_spec() {
                match h.object(r).proto() {
                    Value::Object(p) => {
                        if p.0 < r.0 {
                            lemma_absent_key_reads_null(h, p, k);
                        }
                    },
                    _ => {},
                }
            }
        },
        None => {},
    }
}

/// A private symbol is never inherited: when an object lacks it as an own
/// property, reading it gives `Null` whatever its prototypes hold.
pub proof fn lemma_private_key_not_inherited(h: &Heap, r: ObjRef, k: ObjectKey)
    requires
        h.wf(),
        h.valid(r),
        k.is_private_spec(),
        h.own(r, k) is None,
    ensures
        h.lookup(r, k) == Value::Null,
{
    match h.key_id(k.model()) {
        Some(id) => {
            let e = h.object(r).entries();
            lemma_find_entry(e, id);
        },
        None => {},
    }
}

} // verus!
