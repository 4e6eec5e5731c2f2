//! Symbols and property keys.
use vstd::prelude::*;
use crate::text::{decimal, digit_char, usize_text, join2};

verus! {

/// A symbol: its creation-order id, whether it is private, and an optional
/// description.
#[derive(Debug)]
pub struct Symbol(pub usize, pub bool, pub Option<String>);

/// What a symbol is, as plain values.
pub ghost enum SymbolModel {
    Sym { id: nat, private: bool, description: Option<Seq<char>> },
}

pub open spec fn opt_text(d: Option<String>) -> Option<Seq<char>> {
    match d {
        Some(s) => Some(s@),
        None => None,
    }
}

impl Symbol {
    pub open spec fn model(&self) -> SymbolModel {
        SymbolModel::Sym { id: self.0 as nat, private: self.1, description: opt_text(self.2) }
    }

    /// A symbol with the id that `next_id` holds; the counter moves on by one,
    /// so that every symbol made through it has an id of its own.
    pub fn new(next_id: &mut usize, private: bool, desc: Option<String>) -> (s: Symbol)
        requires
            *old(next_id) < usize::MAX,
        ensures
            s.0 == *old(next_id),
            s.1 == private,
            s.2 == desc,
            *final(next_id) == *old(next_id) + 1,
    {
        let s = Symbol(*next_id, private, desc);
        *next_id = *next_id + 1;
        s
    }

    /// A copy that is equal to this symbol in every field.
    pub fn duplicate(&self) -> (r: Symbol)
        ensures
            r == *self,
    {
        let d = match &self.2 {
            Some(s) => Some(s.clone()),
            None => None,
        };
        Symbol(self.0, self.1, d)
    }
}

impl Clone for Symbol {
    fn clone(&self) -> (r: Symbol)
        ensures
            r == *self,
    {
        self.duplicate()
    }
}

impl PartialEq for Symbol {
    fn eq(&self, other: &Symbol) -> (r: bool) {
        if self.0 != other.0 || self.1 != other.1 {
            return false;
        }
        match (&self.2, &other.2) {
            (Some(a), Some(b)) => {
                let same = a.eq(b);
                same
            },
            (None, None) => true,
            _ => false,
        }
    }
}

impl vstd::std_specs::cmp::PartialEqSpecImpl for Symbol {
    open spec fn obeys_eq_spec() -> bool {
        true
    }

    open spec fn eq_spec(&self, other: &Symbol) -> bool {
        self.model() == other.model()
    }
}

impl Eq for Symbol {}

/// A property key: an array index, a string, or a symbol.
#[derive(Debug)]
pub enum ObjectKey {
    Number(usize),
    String(String),
    Symbol(Symbol),
}

/// What a key means: an index and its decimal string form are one key.
pub ghost enum KeyModel {
    Text(Seq<char>),
    Sym(SymbolModel),
}

impl KeyModel {
    pub open spec fn private(&self) -> bool {
        match self {
            KeyModel::Sym(SymbolModel::Sym { private, .. }) => *private,
            _ => false,
        }
    }
}

impl ObjectKey {
    pub open spec fn model(&self) -> KeyModel {
        match self {
            ObjectKey::Number(n) => KeyModel::Text(decimal(*n as nat)),
            ObjectKey::String(s) => KeyModel::Text(s@),
            ObjectKey::Symbol(s) => KeyModel::Sym(s.model()),
        }
    }

    /// A private symbol: never inherited, never enumerated.
    pub open spec fn is_private_spec(&self) -> bool {
        match self {
            ObjectKey::Symbol(s) => s.1,
            _ => false,
        }
    }

    pub fn is_private(&self) -> (r: bool)
        ensures
            r == self.is_private_spec(),
            r == self.model().private(),
    {
        match self {
            ObjectKey::Symbol(s) => s.1,
            _ => false,
        }
    }

    /// A copy equal to this key in every field.
    pub fn duplicate(&self) -> (r: ObjectKey)
        ensures
            r == *self,
    {
        match self {
            ObjectKey::Number(n) => ObjectKey::Number(*n),
            ObjectKey::String(s) => ObjectKey::String(s.clone()),
            ObjectKey::Symbol(s) => ObjectKey::Symbol(s.duplicate()),
        }
    }

    /// The key as enumeration shows it: an index in decimal, a string as
    /// it is, a symbol as `[Symbol(description)]`.
    pub fn display(&self) -> (r: String)
        ensures
            self is Number ==> r@ == decimal(self->Number_0 as nat),
            self is String ==> r@ == self->String_0@,
    {
        match self {
            ObjectKey::Number(n) => usize_text(*n),
            ObjectKey::String(s) => s.clone(),
            ObjectKey::Symbol(Symbol(_, _, d)) => {
                match d {
                    Some(text) => {
                        let head = join2("[Symbol(", text.as_str());
                        join2(head.as_str(), ")]")
                    },
                    None => "[Symbol()]".to_owned(),
                }
            },
        }
    }

    /// Whether two keys name the same property.
    pub fn same_key(&self, other: &ObjectKey) -> (r: bool)
        ensures
            r == (self.model() == other.model()),
    {
        match (self, other) {
            (ObjectKey::Number(a), ObjectKey::Number(b)) => {
                proof { lemma_decimal_injective(*a as nat, *b as nat); }
                *a == *b
            },
            (ObjectKey::Number(a), ObjectKey::String(b)) => {
                let t = usize_text(*a);
                t == *b
            },
            (ObjectKey::String(a), ObjectKey::Number(b)) => {
                let t = usize_text(*b);
                *a == t
            },
            (ObjectKey::String(a), ObjectKey::String(b)) => *a == *b,
            (ObjectKey::Symbol(a), ObjectKey::Symbol(b)) => *a == *b,
            _ => false,
        }
    }

    /// Rank of the key's class in enumeration order: indices, then strings,
    /// then symbols.
    pub open spec fn rank(&self) -> nat {
        match self {
            ObjectKey::Number(_) => 0,
            ObjectKey::String(_) => 1,
            ObjectKey::Symbol(_) => 2,
        }
    }

    /// The enumeration order: by class; indices by value, strings by
    /// character codes; symbols all tie, so a stable sort keeps them in
    /// insertion order.
    pub open spec fn le_spec(&self, other: &ObjectKey) -> bool {
        if self.rank() != other.rank() {
            self.rank() < other.rank()
        } else {
            match (self, other) {
                (ObjectKey::Number(a), ObjectKey::Number(b)) => *a <= *b,
                (ObjectKey::String(a), ObjectKey::String(b)) => text_le(a@, b@),
                _ => true,
            }
        }
    }

    pub fn le(&self, other: &ObjectKey) -> (r: bool)
        ensures
            r == self.le_spec(other),
    {
        match (self, other) {
            (ObjectKey::Number(a), ObjectKey::Number(b)) => *a <= *b,
            (ObjectKey::Number(_), _) => true,
            (ObjectKey::String(_), ObjectKey::Number(_)) => false,
            (ObjectKey::String(a), ObjectKey::String(b)) => str_le(a.as_str(), b.as_str()),
            (ObjectKey::String(_), ObjectKey::Symbol(_)) => true,
            (ObjectKey::Symbol(_), ObjectKey::Symbol(_)) => true,
            (ObjectKey::Symbol(_), _) => false,
        }
    }
}

/// Lexicographic order on character codes.
pub open spec fn text_le(a: Seq<char>, b: Seq<char>) -> bool
    decreases a.len(),
{
    if a.len() == 0 {
        true
    } else if b.len() == 0 {
        false
    } else if (a[0] as u32) != (b[0] as u32) {
        (a[0] as u32) < (b[0] as u32)
    } else {
        text_le(a.drop_first(), b.drop_first())
    }
}

pub proof fn lemma_text_le_total(a: Seq<char>, b: Seq<char>)
    ensures
        text_le(a, b) || text_le(b, a),
    decreases a.len(),
{
    if a.len() > 0 && b.len() > 0 && (a[0] as u32) == (b[0] as u32) {
        lemma_text_le_total(a.drop_first(), b.drop_first());
    }
}

pub proof fn lemma_text_le_trans(a: Seq<char>, b: Seq<char>, c: Seq<char>)
    requires
        text_le(a, b),
        text_le(b, c),
    ensures
        text_le(a, c),
    decreases a.len(),
{
    if a.len() > 0 && b.len() > 0 && c.len() > 0 {
        if (a[0] as u32) == (b[0] as u32) && (b[0] as u32) == (c[0] as u32) {
            lemma_text_le_trans(a.drop_first(), b.drop_first(), c.drop_first());
        }
    }
}

/// The enumeration order is total.
pub proof fn lemma_key_le_total(a: ObjectKey, b: ObjectKey)
    ensures
        a.le_spec(&b) || b.le_spec(&a),
{
    match (a, b) {
        (ObjectKey::String(x), ObjectKey::String(y)) => lemma_text_le_total(x@, y@),
        _ => {},
    }
}

/// The enumeration order is transitive.
pub proof fn lemma_key_le_trans(a: ObjectKey, b: ObjectKey, c: ObjectKey)
    requires
        a.le_spec(&b),
        b.le_spec(&c),
    ensures
        a.le_spec(&c),
{
    match (a, b, c) {
        (ObjectKey::String(x), ObjectKey::String(y), ObjectKey::String(z)) => lemma_text_le_trans(x@, y@, z@),
        _ => {},
    }
}

fn str_le(a: &str, b: &str) -> (r: bool)
    ensures
        r == text_le(a@, b@),
{
    let la = a.unicode_len();
    let lb = b.unicode_len();
    let mut i: usize = 0;
    assert(a@.subrange(0, la as int) =~= a@);
    assert(b@.subrange(0, lb as int) =~= b@);
    while i < la && i < lb
        invariant
            la == a@.len(),
            lb == b@.len(),
            i <= la,
            i <= lb,
            text_le(a@, b@) == text_le(a@.subrange(i as int, la as int), b@.subrange(i as int, lb as int)),
        decreases la - i,
    {
        let ca = a.get_char(i);
        let cb = b.get_char(i);
        let ghost sa = a@.subrange(i as int, la as int);
        let ghost sb = b@.subrange(i as int, lb as int);
        assert(sa[0] == ca);
        assert(sb[0] == cb);
        if (ca as u32) != (cb as u32) {
            return (ca as u32) < (cb as u32);
        }
        assert(sa.drop_first() =~= a@.subrange(i + 1, la as int));
        assert(sb.drop_first() =~= b@.subrange(i + 1, lb as int));
        i = i + 1;
    }
    i == la
}

pub proof fn lemma_decimal_len(n: nat)
    ensures
        decimal(n).len() >= 1,
    decreases n,
{
    if n >= 10 {
        lemma_decimal_len(n / 10);
    }
}

proof fn lemma_digit_injective(a: nat, b: nat)
    requires
        a < 10,
        b < 10,
        digit_char(a) == digit_char(b),
    ensures
        a == b,
{
}

/// Distinct numbers have distinct decimal forms.
pub proof fn lemma_decimal_injective(a: nat, b: nat)
    ensures
        decimal(a) == decimal(b) ==> a == b,
    decreases a,
{
    if decimal(a) == decimal(b) {
        if a < 10 && b < 10 {
            assert(decimal(a)[0] == digit_char(a));
            assert(decimal(b)[0] == digit_char(b));
            lemma_digit_injective(a, b);
        } else if a >= 10 && b >= 10 {
            lemma_decimal_len(a / 10);
            lemma_decimal_len(b / 10);
            let da = decimal(a / 10);
            let db = decimal(b / 10);
            assert(decimal(a).drop_last() =~= da);
            assert(decimal(b).drop_last() =~= db);
            lemma_decimal_injective(a / 10, b / 10);
            assert(decimal(a).last() == digit_char(a % 10));
            assert(decimal(b).last() == digit_char(b % 10));
            lemma_digit_injective(a % 10, b % 10);
            assert(a == 10 * (a / 10) + a % 10) by (nonlinear_arith);
            assert(b == 10 * (b / 10) + b % 10) by (nonlinear_arith);
        } else if a < 10 {
            lemma_decimal_len(b / 10);
            assert(decimal(b).len() >= 2);
        } else {
            lemma_decimal_len(a / 10);
            assert(decimal(a).len() >= 2);
        }
    }
}

impl PartialEq for ObjectKey {
    fn eq(&self, other: &ObjectKey) -> (r: bool) {
        self.same_key(other)
    }
}

impl vstd::std_specs::cmp::PartialEqSpecImpl for ObjectKey {
    open spec fn obeys_eq_spec() -> bool {
        true
    }

    open spec fn eq_spec(&self, other: &ObjectKey) -> bool {
        self.model() == other.model()
    }
}

impl Eq for ObjectKey {}

impl From<String> for ObjectKey {
    fn from(s: String) -> (k: ObjectKey) {
        ObjectKey::String(s)
    }
}

impl vstd::std_specs::convert::FromSpecImpl<String> for ObjectKey {
    open spec fn obeys_from_spec() -> bool {
        true
    }

    open spec fn from_spec(s: String) -> ObjectKey {
        ObjectKey::String(s)
    }
}

impl From<usize> for ObjectKey {
    fn from(n: usize) -> (k: ObjectKey) {
        ObjectKey::Number(n)
    }
}

impl vstd::std_specs::convert::FromSpecImpl<usize> for ObjectKey {
    open spec fn obeys_from_spec() -> bool {
        true
    }

    open spec fn from_spec(n: usize) -> ObjectKey {
        ObjectKey::Number(n)
    }
}

impl From<u32> for ObjectKey {
    fn from(n: u32) -> (k: ObjectKey) {
        ObjectKey::Number(n as usize)
    }
}

impl vstd::std_specs::convert::FromSpecImpl<u32> for ObjectKey {
    open spec fn obeys_from_spec() -> bool {
        true
    }

    open spec fn from_spec(n: u32) -> ObjectKey {
        ObjectKey::Number(n as usize)
    }
}

} // verus!
