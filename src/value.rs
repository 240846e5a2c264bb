//! Scalar values, their types and their ordering.
use vstd::prelude::*;
use vstd::string::*;

verus! {

/// The type of a value or of a column.
#[derive(Debug, Clone, Copy, PartialEq, Eq, Structural)]
pub enum DataType {
    Null,
    Boolean,
    Int,
    Text,
}

/// A tagged scalar.
#[derive(Debug, Clone)]
pub enum Value {
    Null,
    Bool(bool),
    Int(i64),
    Text(String),
}

pub open spec fn data_type_of(v: Value) -> DataType {
    match v {
        Value::Null => DataType::Null,
        Value::Bool(_) => DataType::Boolean,
        Value::Int(_) => DataType::Int,
        Value::Text(_) => DataType::Text,
    }
}

/// Whether `v` is the value a column of type `t` holds before any data is
/// known: `Null`, `false`, `0` or the empty string.
pub open spec fn is_default_of(v: Value, t: DataType) -> bool {
    match t {
        DataType::Null => v is Null,
        DataType::Boolean => v == Value::Bool(false),
        DataType::Int => v == Value::Int(0),
        DataType::Text => v is Text && v->Text_0@.len() == 0,
    }
}

pub open spec fn type_rank(v: Value) -> int {
    match v {
        Value::Null => 0,
        Value::Bool(_) => 1,
        Value::Int(_) => 2,
        Value::Text(_) => 3,
    }
}

/// Lexicographic order on the characters of two strings, from position `i` on.
pub open spec fn text_lt_from(a: Seq<char>, b: Seq<char>, i: nat) -> bool
    decreases a.len() - i,
{
    if i >= a.len() {
        i < b.len()
    } else if i >= b.len() {
        false
    } else if a[i as int] != b[i as int] {
        (a[i as int] as u32) < (b[i as int] as u32)
    } else {
        text_lt_from(a, b, i + 1)
    }
}

pub open spec fn text_lt(a: Seq<char>, b: Seq<char>) -> bool {
    text_lt_from(a, b, 0)
}

/// The total order used for sorting: `Null` first, then booleans, integers and
/// strings, each in its natural order.
pub open spec fn value_lt(a: Value, b: Value) -> bool {
    if type_rank(a) != type_rank(b) {
        type_rank(a) < type_rank(b)
    } else {
        match (a, b) {
            (Value::Bool(x), Value::Bool(y)) => !x && y,
            (Value::Int(x), Value::Int(y)) => x < y,
            (Value::Text(x), Value::Text(y)) => text_lt(x@, y@),
            _ => false,
        }
    }
}

/// Equality of two values as the engine sees it (strings by their characters).
pub open spec fn value_eq(a: Value, b: Value) -> bool {
    match (a, b) {
        (Value::Null, Value::Null) => true,
        (Value::Bool(x), Value::Bool(y)) => x == y,
        (Value::Int(x), Value::Int(y)) => x == y,
        (Value::Text(x), Value::Text(y)) => x@ == y@,
        _ => false,
    }
}

pub proof fn lemma_text_lt_irreflexive(a: Seq<char>, i: nat)
    ensures
        !text_lt_from(a, a, i),
    decreases a.len() - i,
{
    if i < a.len() {
        lemma_text_lt_irreflexive(a, i + 1);
    }
}

pub proof fn lemma_text_lt_transitive(a: Seq<char>, b: Seq<char>, c: Seq<char>, i: nat)
    requires
        text_lt_from(a, b, i),
        text_lt_from(b, c, i),
    ensures
        text_lt_from(a, c, i),
    decreases a.len() - i,
{
    if i < a.len() && i < b.len() && i < c.len() && a[i as int] == b[i as int] && b[i as int]
        == c[i as int] {
        lemma_text_lt_transitive(a, b, c, i + 1);
    }
}

/// Two strings are either equal from position `i` on, or one is below the other.
pub proof fn lemma_text_lt_total(a: Seq<char>, b: Seq<char>, i: nat)
    requires
        i <= a.len(),
        i <= b.len(),
        a.subrange(0, i as int) == b.subrange(0, i as int),
        !text_lt_from(a, b, i),
        !text_lt_from(b, a, i),
    ensures
        a == b,
    decreases a.len() - i,
{
    if i >= a.len() {
        assert(a == a.subrange(0, i as int));
        assert(b == b.subrange(0, i as int));
    } else {
        assert(a.subrange(0, i as int + 1) == a.subrange(0, i as int).push(a[i as int]));
        assert(b.subrange(0, i as int + 1) == b.subrange(0, i as int).push(b[i as int]));
        if a[i as int] == b[i as int] {
            lemma_text_lt_total(a, b, i + 1);
        } else {
            vstd::utf8::char_u32_cast(a[i as int], a[i as int] as u32);
            vstd::utf8::char_u32_cast(b[i as int], b[i as int] as u32);
        }
    }
}

pub proof fn lemma_value_lt_irreflexive(a: Value)
    ensures
        !value_lt(a, a),
{
    if let Value::Text(x) = a {
        lemma_text_lt_irreflexive(x@, 0);
    }
}

pub proof fn lemma_value_lt_transitive(a: Value, b: Value, c: Value)
    requires
        value_lt(a, b),
        value_lt(b, c),
    ensures
        value_lt(a, c),
{
    if let (Value::Text(x), Value::Text(y), Value::Text(z)) = (a, b, c) {
        lemma_text_lt_transitive(x@, y@, z@, 0);
    }
}

/// Of two values that are not equal, one is below the other.
pub proof fn lemma_value_lt_total(a: Value, b: Value)
    requires
        !value_lt(a, b),
        !value_lt(b, a),
    ensures
        value_eq(a, b),
{
    if let (Value::Text(x), Value::Text(y)) = (a, b) {
        assert(x@.subrange(0, 0) == y@.subrange(0, 0));
        lemma_text_lt_total(x@, y@, 0);
    }
}


impl Value {
    /// A copy of this value.
    pub fn duplicate(&self) -> (r: Value)
        ensures
            r == *self,
    {
        match self {
            Value::Null => Value::Null,
            Value::Bool(b) => Value::Bool(*b),
            Value::Int(i) => Value::Int(*i),
            Value::Text(s) => Value::Text(s.clone()),
        }
    }

    /// The type of this value.
    pub fn data_type(&self) -> (r: DataType)
        ensures
            r == data_type_of(*self),
    {
        match self {
            Value::Null => DataType::Null,
            Value::Bool(_) => DataType::Boolean,
            Value::Int(_) => DataType::Int,
            Value::Text(_) => DataType::Text,
        }
    }

    /// The value a column of type `t` holds before any data is known.
    pub fn default_for(t: DataType) -> (r: Value)
        ensures
            is_default_of(r, t),
            data_type_of(r) == t,
    {
        match t {
            DataType::Null => Value::Null,
            DataType::Boolean => Value::Bool(false),
            DataType::Int => Value::Int(0),
            DataType::Text => Value::Text(String::new()),
        }
    }

    /// Whether `self` comes before `other` in the sorting order.
    pub fn sorts_before(&self, other: &Value) -> (r: bool)
        ensures
            r == value_lt(*self, *other),
    {
        match (self, other) {
            (Value::Bool(x), Value::Bool(y)) => !*x && *y,
            (Value::Int(x), Value::Int(y)) => *x < *y,
            (Value::Text(x), Value::Text(y)) => text_less(x, y),
            _ => type_rank_of(self) < type_rank_of(other),
        }
    }

    /// Whether the two values are equal.
    pub fn same_as(&self, other: &Value) -> (r: bool)
        ensures
            r == value_eq(*self, *other),
    {
        match (self, other) {
            (Value::Null, Value::Null) => true,
            (Value::Bool(x), Value::Bool(y)) => *x == *y,
            (Value::Int(x), Value::Int(y)) => *x == *y,
            (Value::Text(x), Value::Text(y)) => *x == *y,
            _ => false,
        }
    }
}

fn type_rank_of(v: &Value) -> (r: u8)
    ensures
        r as int == type_rank(*v),
{
    match v {
        Value::Null => 0,
        Value::Bool(_) => 1,
        Value::Int(_) => 2,
        Value::Text(_) => 3,
    }
}

/// Whether `a` is below `b` in the lexicographic order of their characters.
pub fn text_less(a: &String, b: &String) -> (r: bool)
    ensures
        r == text_lt(a@, b@),
{
    let la = a.as_str().unicode_len();
    let lb = b.as_str().unicode_len();
    let mut i: usize = 0;
    while i < la && i < lb
        invariant
            la == a@.len(),
            lb == b@.len(),
            i <= la,
            i <= lb,
            text_lt_from(a@, b@, 0) == text_lt_from(a@, b@, i as nat),
        decreases la - i,
    {
        let ca = a.as_str().get_char(i);
        let cb = b.as_str().get_char(i);
        if ca != cb {
            return (ca as u32) < (cb as u32);
        }
        i = i + 1;
    }
    i < lb && i >= la
}

/// The characters of a string, one per element.
pub fn chars_of(s: &String) -> (r: Vec<char>)
    ensures
        r@ == s@,
{
    let n = s.as_str().unicode_len();
    let mut r: Vec<char> = Vec::new();
    let mut i: usize = 0;
    while i < n
        invariant
            n == s@.len(),
            i <= n,
            r@ == s@.subrange(0, i as int),
        decreases n - i,
    {
        r.push(s.as_str().get_char(i));
        i = i + 1;
        assert(r@ == s@.subrange(0, i as int));
    }
    assert(r@ == s@);
    r
}

} // verus!
