//! SQL expressions and their evaluation against a row.
use vstd::prelude::*;
use crate::value::{Value, chars_of, text_less, text_lt, value_eq};
use crate::table::{Column, Table, Row};

verus! {

/// A column reference: a name, optionally qualified by its table's name.
#[derive(Debug, Clone)]
pub struct ColumnRef {
    pub table: Option<String>,
    pub name: String,
}

/// An expression.
#[derive(Debug)]
pub enum Expr {
    Value(Value),
    ColumnRef(ColumnRef),
    Wildcard,
    Binary { left: Box<Expr>, op: BinOp, right: Box<Expr> },
    Unary { op: UnOp, operand: Box<Expr> },
    Function { name: String, args: Vec<Expr> },
}

/// A binary operator.
#[derive(Debug, Copy, Clone, PartialEq, Eq, Structural)]
pub enum BinOp {
    Plus,
    Minus,
    Multiply,
    Divide,
    Modulo,
    Equal,
    NotEqual,
    LessThan,
    LessThanOrEqual,
    GreaterThan,
    GreaterThanOrEqual,
    Like,
    ILike,
    And,
    Or,
}

/// A unary operator.
#[derive(Debug, Copy, Clone, PartialEq, Eq, Structural)]
pub enum UnOp {
    Plus,
    Minus,
    Not,
    IsFalse,
    IsTrue,
    IsNull,
    IsNotNull,
}

/// Why an expression could not be evaluated.
#[derive(Debug, Clone)]
pub enum ExprError {
    ColumnNotFound(String),
    WildcardNotAllowed,
    TypeMismatch,
    Overflow,
    DivisionByZero,
    UnknownFunction(String),
    WrongArgumentCount,
}

// ---------------------------------------------------------------- specification

/// Position of the first column named `name`, searching from `i`.
pub open spec fn column_position_from(cols: Seq<Column>, name: Seq<char>, i: nat) -> Option<nat>
    decreases cols.len() - i,
{
    if i >= cols.len() {
        None
    } else if cols[i as int].name@ == name {
        Some(i)
    } else {
        column_position_from(cols, name, i + 1)
    }
}

pub open spec fn column_position(cols: Seq<Column>, name: Seq<char>) -> Option<nat> {
    column_position_from(cols, name, 0)
}

/// The value a column reference denotes in a row of the table `table_name`.
pub open spec fn resolve_spec(
    c: ColumnRef,
    table_name: Seq<char>,
    cols: Seq<Column>,
    row: Seq<Value>,
) -> Result<Value, ExprError> {
    let qualified_ok = match c.table {
        Some(t) => t@ == table_name,
        None => true,
    };
    if !qualified_ok {
        Err(ExprError::ColumnNotFound(c.name))
    } else {
        match column_position(cols, c.name@) {
            Some(i) if i < row.len() => Ok(row[i as int]),
            _ => Err(ExprError::ColumnNotFound(c.name)),
        }
    }
}

pub open spec fn is_upper_ascii(c: char) -> bool {
    'A' <= c && c <= 'Z'
}

/// Equality of characters, ignoring ASCII case where `ci` holds.
pub open spec fn char_match(ci: bool, a: char, b: char) -> bool {
    a == b || (ci && ((is_upper_ascii(a) && (a as u32) + 32 == (b as u32)) || (is_upper_ascii(b)
        && (b as u32) + 32 == (a as u32))))
}

/// SQL `LIKE` on the suffixes of `s` from `i` and of `p` from `j`: `%` matches
/// any run of characters, `_` any single character.
pub open spec fn like_from(ci: bool, s: Seq<char>, p: Seq<char>, i: nat, j: nat) -> bool
    decreases (s.len() - i) + (p.len() - j),
{
    if j >= p.len() {
        i >= s.len()
    } else if i > s.len() {
        false
    } else if p[j as int] == '%' {
        like_from(ci, s, p, i, j + 1) || (i < s.len() && like_from(ci, s, p, i + 1, j))
    } else if i >= s.len() {
        false
    } else if p[j as int] == '_' || char_match(ci, p[j as int], s[i as int]) {
        like_from(ci, s, p, i + 1, j + 1)
    } else {
        false
    }
}

pub open spec fn like_spec(ci: bool, s: Seq<char>, p: Seq<char>) -> bool {
    like_from(ci, s, p, 0, 0)
}

/// The comparison `op` on two values of one type; `None` if the types differ.
pub open spec fn compare_spec(op: BinOp, a: Value, b: Value) -> Option<bool> {
    let lt = match (a, b) {
        (Value::Bool(x), Value::Bool(y)) => Some(!x && y),
        (Value::Int(x), Value::Int(y)) => Some(x < y),
        (Value::Text(x), Value::Text(y)) => Some(text_lt(x@, y@)),
        _ => None,
    };
    let gt = match (a, b) {
        (Value::Bool(x), Value::Bool(y)) => x && !y,
        (Value::Int(x), Value::Int(y)) => x > y,
        (Value::Text(x), Value::Text(y)) => text_lt(y@, x@),
        _ => false,
    };
    match lt {
        None => None,
        Some(lt) => {
            let eq = value_eq(a, b);
            Some(
                match op {
                    BinOp::Equal => eq,
                    BinOp::NotEqual => !eq,
                    BinOp::LessThan => lt,
                    BinOp::LessThanOrEqual => lt || eq,
                    BinOp::GreaterThan => gt,
                    _ => gt || eq,
                },
            )
        },
    }
}

pub open spec fn is_comparison(op: BinOp) -> bool {
    op is Equal || op is NotEqual || op is LessThan || op is LessThanOrEqual || op is GreaterThan
        || op is GreaterThanOrEqual
}

pub open spec fn is_arithmetic(op: BinOp) -> bool {
    op is Plus || op is Minus || op is Multiply || op is Divide || op is Modulo
}

/// Integer arithmetic, failing on overflow and on a zero divisor.
pub open spec fn arith_spec(op: BinOp, x: i64, y: i64) -> Result<Value, ExprError> {
    let r = match op {
        BinOp::Plus => x.checked_add(y),
        BinOp::Minus => x.checked_sub(y),
        BinOp::Multiply => x.checked_mul(y),
        BinOp::Divide => x.checked_div(y),
        _ => x.checked_rem(y),
    };
    if (op is Divide || op is Modulo) && y == 0 {
        Err(ExprError::DivisionByZero)
    } else {
        match r {
            Some(v) => Ok(Value::Int(v)),
            None => Err(ExprError::Overflow),
        }
    }
}

/// Kleene logic on `Bool` and `Null` operands.
pub open spec fn logic_spec(op: BinOp, a: Value, b: Value) -> Result<Value, ExprError> {
    if !(a is Null || a is Bool) || !(b is Null || b is Bool) {
        Err(ExprError::TypeMismatch)
    } else if op is And {
        if a == Value::Bool(false) || b == Value::Bool(false) {
            Ok(Value::Bool(false))
        } else if a is Null || b is Null {
            Ok(Value::Null)
        } else {
            Ok(Value::Bool(true))
        }
    } else {
        if a == Value::Bool(true) || b == Value::Bool(true) {
            Ok(Value::Bool(true))
        } else if a is Null || b is Null {
            Ok(Value::Null)
        } else {
            Ok(Value::Bool(false))
        }
    }
}

/// A binary operator applied to two evaluated operands.
pub open spec fn binary_spec(op: BinOp, a: Value, b: Value) -> Result<Value, ExprError> {
    if op is And || op is Or {
        logic_spec(op, a, b)
    } else if a is Null || b is Null {
        Ok(Value::Null)
    } else if is_arithmetic(op) {
        match (a, b) {
            (Value::Int(x), Value::Int(y)) => arith_spec(op, x, y),
            _ => Err(ExprError::TypeMismatch),
        }
    } else if is_comparison(op) {
        match compare_spec(op, a, b) {
            Some(r) => Ok(Value::Bool(r)),
            None => Err(ExprError::TypeMismatch),
        }
    } else {
        match (a, b) {
            (Value::Text(s), Value::Text(p)) => Ok(Value::Bool(like_spec(op is ILike, s@, p@))),
            _ => Err(ExprError::TypeMismatch),
        }
    }
}

/// A unary operator applied to an evaluated operand.
pub open spec fn unary_spec(op: UnOp, a: Value) -> Result<Value, ExprError> {
    match op {
        UnOp::IsNull => Ok(Value::Bool(a is Null)),
        UnOp::IsNotNull => Ok(Value::Bool(!(a is Null))),
        _ => match a {
            Value::Null => match op {
                UnOp::IsTrue | UnOp::IsFalse => Ok(Value::Bool(false)),
                _ => Ok(Value::Null),
            },
            Value::Bool(b) => match op {
                UnOp::Not => Ok(Value::Bool(!b)),
                UnOp::IsTrue => Ok(Value::Bool(b)),
                UnOp::IsFalse => Ok(Value::Bool(!b)),
                _ => Err(ExprError::TypeMismatch),
            },
            Value::Int(x) => match op {
                UnOp::Plus => Ok(Value::Int(x)),
                UnOp::Minus => match 0i64.checked_sub(x) {
                    Some(v) => Ok(Value::Int(v)),
                    None => Err(ExprError::Overflow),
                },
                _ => Err(ExprError::TypeMismatch),
            },
            Value::Text(_) => Err(ExprError::TypeMismatch),
        },
    }
}

/// Equality of names, ignoring ASCII case.
pub open spec fn name_matches(a: Seq<char>, b: Seq<char>) -> bool {
    a.len() == b.len() && forall|i: int| 0 <= i < a.len() ==> char_match(true, a[i], b[i])
}

/// The functions of the registry, by their names in lower case.
pub open spec fn is_abs(name: Seq<char>) -> bool {
    name_matches(name, seq!['a', 'b', 's'])
}

pub open spec fn is_length(name: Seq<char>) -> bool {
    name_matches(name, seq!['l', 'e', 'n', 'g', 't', 'h'])
}

/// A function of the registry applied to its one evaluated argument.
pub open spec fn function_spec(name: Seq<char>, a: Value) -> Result<Value, ExprError> {
    if is_abs(name) {
        match a {
            Value::Null => Ok(Value::Null),
            Value::Int(x) => if x < 0 {
                match 0i64.checked_sub(x) {
                    Some(v) => Ok(Value::Int(v)),
                    None => Err(ExprError::Overflow),
                }
            } else {
                Ok(Value::Int(x))
            },
            _ => Err(ExprError::TypeMismatch),
        }
    } else {
        match a {
            Value::Null => Ok(Value::Null),
            Value::Text(s) => if s@.len() <= i64::MAX {
                Ok(Value::Int(s@.len() as i64))
            } else {
                Err(ExprError::Overflow)
            },
            _ => Err(ExprError::TypeMismatch),
        }
    }
}

/// What `e` evaluates to in the row `row` of the table `table_name` with columns `cols`.
pub open spec fn eval_spec(e: Expr, table_name: Seq<char>, cols: Seq<Column>, row: Seq<Value>) -> Result<
    Value,
    ExprError,
>
    decreases e,
{
    match e {
        Expr::Value(v) => Ok(v),
        Expr::ColumnRef(c) => resolve_spec(c, table_name, cols, row),
        Expr::Wildcard => Err(ExprError::WildcardNotAllowed),
        Expr::Binary { left, op, right } => match eval_spec(*left, table_name, cols, row) {
            Err(err) => Err(err),
            Ok(a) => match eval_spec(*right, table_name, cols, row) {
                Err(err) => Err(err),
                Ok(b) => binary_spec(op, a, b),
            },
        },
        Expr::Unary { op, operand } => match eval_spec(*operand, table_name, cols, row) {
            Err(err) => Err(err),
            Ok(a) => unary_spec(op, a),
        },
        Expr::Function { name, args } => if !is_abs(name@) && !is_length(name@) {
            Err(ExprError::UnknownFunction(name))
        } else if args.len() != 1 {
            Err(ExprError::WrongArgumentCount)
        } else {
            match eval_spec(args[0], table_name, cols, row) {
                Err(err) => Err(err),
                Ok(a) => function_spec(name@, a),
            }
        },
    }
}

/// What `e` evaluates to in the row `row` of `t`.
pub open spec fn eval_in(e: Expr, t: Table, row: Seq<Value>) -> Result<Value, ExprError> {
    eval_spec(e, t.name@, t.columns@, row)
}


/// Integer division or remainder by zero is the error `DivisionByZero`.
pub proof fn lemma_division_by_zero(x: i64)
    ensures
        binary_spec(BinOp::Divide, Value::Int(x), Value::Int(0)) == Err::<Value, ExprError>(ExprError::DivisionByZero),
        binary_spec(BinOp::Modulo, Value::Int(x), Value::Int(0)) == Err::<Value, ExprError>(ExprError::DivisionByZero),
{
}

// ---------------------------------------------------------------- evaluation

pub(crate) fn column_index(cols: &Vec<Column>, name: &String) -> (r: Option<usize>)
    ensures
        match r {
            Some(i) => column_position(cols@, name@) == Some(i as nat) && i < cols@.len(),
            None => column_position(cols@, name@) is None,
        },
{
    let mut i: usize = 0;
    while i < cols.len()
        invariant
            i <= cols@.len(),
            column_position(cols@, name@) == column_position_from(cols@, name@, i as nat),
        decreases cols@.len() - i,
    {
        if cols[i].name == *name {
            return Some(i);
        }
        i = i + 1;
    }
    None
}

fn resolve(c: &ColumnRef, t: &Table, row: &Row) -> (r: Result<Value, ExprError>)
    ensures
        r == resolve_spec(*c, t.name@, t.columns@, row.data@),
{
    if let Some(q) = &c.table {
        if *q != t.name {
            return Err(ExprError::ColumnNotFound(c.name.clone()));
        }
    }
    match column_index(&t.columns, &c.name) {
        Some(i) => if i < row.data.len() {
            Ok(row.data[i].duplicate())
        } else {
            Err(ExprError::ColumnNotFound(c.name.clone()))
        },
        None => Err(ExprError::ColumnNotFound(c.name.clone())),
    }
}

fn is_upper(c: char) -> (r: bool)
    ensures
        r == is_upper_ascii(c),
{
    'A' <= c && c <= 'Z'
}

fn chars_match(ci: bool, a: char, b: char) -> (r: bool)
    ensures
        r == char_match(ci, a, b),
{
    a == b || (ci && ((is_upper(a) && (a as u32) + 32 == (b as u32)) || (is_upper(b) && (b as u32)
        + 32 == (a as u32))))
}

fn like_at(ci: bool, s: &Vec<char>, p: &Vec<char>, i: usize, j: usize) -> (r: bool)
    requires
        i <= s@.len(),
        j <= p@.len(),
    ensures
        r == like_from(ci, s@, p@, i as nat, j as nat),
    decreases (s@.len() - i) + (p@.len() - j),
{
    if j >= p.len() {
        i >= s.len()
    } else if p[j] == '%' {
        like_at(ci, s, p, i, j + 1) || (i < s.len() && like_at(ci, s, p, i + 1, j))
    } else if i >= s.len() {
        false
    } else if p[j] == '_' || chars_match(ci, p[j], s[i]) {
        like_at(ci, s, p, i + 1, j + 1)
    } else {
        false
    }
}

/// SQL `LIKE` of `s` against the pattern `p`, ignoring ASCII case where `ci` holds.
pub fn like(ci: bool, s: &String, p: &String) -> (r: bool)
    ensures
        r == like_spec(ci, s@, p@),
{
    let sc = chars_of(s);
    let pc = chars_of(p);
    like_at(ci, &sc, &pc, 0, 0)
}

fn compare(op: BinOp, a: &Value, b: &Value) -> (r: Option<bool>)
    ensures
        r == compare_spec(op, *a, *b),
{
    let (lt, gt) = match (a, b) {
        (Value::Bool(x), Value::Bool(y)) => (!*x && *y, *x && !*y),
        (Value::Int(x), Value::Int(y)) => (*x < *y, *x > *y),
        (Value::Text(x), Value::Text(y)) => (text_less(x, y), text_less(y, x)),
        _ => {
            return None;
        },
    };
    let eq = a.same_as(b);
    Some(
        match op {
            BinOp::Equal => eq,
            BinOp::NotEqual => !eq,
            BinOp::LessThan => lt,
            BinOp::LessThanOrEqual => lt || eq,
            BinOp::GreaterThan => gt,
            _ => gt || eq,
        },
    )
}

fn arith(op: BinOp, x: i64, y: i64) -> (r: Result<Value, ExprError>)
    ensures
        r == arith_spec(op, x, y),
{
    if (matches!(op, BinOp::Divide) || matches!(op, BinOp::Modulo)) && y == 0 {
        return Err(ExprError::DivisionByZero);
    }
    let r = match op {
        BinOp::Plus => x.checked_add(y),
        BinOp::Minus => x.checked_sub(y),
        BinOp::Multiply => x.checked_mul(y),
        BinOp::Divide => x.checked_div(y),
        _ => x.checked_rem(y),
    };
    match r {
        Some(v) => Ok(Value::Int(v)),
        None => Err(ExprError::Overflow),
    }
}

fn logic(op: BinOp, a: &Value, b: &Value) -> (r: Result<Value, ExprError>)
    ensures
        r == logic_spec(op, *a, *b),
{
    let a_ok = matches!(a, Value::Null) || matches!(a, Value::Bool(_));
    let b_ok = matches!(b, Value::Null) || matches!(b, Value::Bool(_));
    if !a_ok || !b_ok {
        return Err(ExprError::TypeMismatch);
    }
    let a_false = matches!(a, Value::Bool(false));
    let b_false = matches!(b, Value::Bool(false));
    let a_true = matches!(a, Value::Bool(true));
    let b_true = matches!(b, Value::Bool(true));
    let any_null = matches!(a, Value::Null) || matches!(b, Value::Null);
    if matches!(op, BinOp::And) {
        if a_false || b_false {
            Ok(Value::Bool(false))
        } else if any_null {
            Ok(Value::Null)
        } else {
            Ok(Value::Bool(true))
        }
    } else {
        if a_true || b_true {
            Ok(Value::Bool(true))
        } else if any_null {
            Ok(Value::Null)
        } else {
            Ok(Value::Bool(false))
        }
    }
}

/// A binary operator applied to two evaluated operands.
pub fn apply_binary(op: BinOp, a: &Value, b: &Value) -> (r: Result<Value, ExprError>)
    ensures
        r == binary_spec(op, *a, *b),
{
    if matches!(op, BinOp::And) || matches!(op, BinOp::Or) {
        return logic(op, a, b);
    }
    if matches!(a, Value::Null) || matches!(b, Value::Null) {
        return Ok(Value::Null);
    }
    match op {
        BinOp::Plus | BinOp::Minus | BinOp::Multiply | BinOp::Divide | BinOp::Modulo => match (
            a,
            b,
        ) {
            (Value::Int(x), Value::Int(y)) => arith(op, *x, *y),
            _ => Err(ExprError::TypeMismatch),
        },
        BinOp::Like | BinOp::ILike => match (a, b) {
            (Value::Text(s), Value::Text(p)) => Ok(
                Value::Bool(like(matches!(op, BinOp::ILike), s, p)),
            ),
            _ => Err(ExprError::TypeMismatch),
        },
        _ => match compare(op, a, b) {
            Some(r) => Ok(Value::Bool(r)),
            None => Err(ExprError::TypeMismatch),
        },
    }
}

/// A unary operator applied to an evaluated operand.
pub fn apply_unary(op: UnOp, a: &Value) -> (r: Result<Value, ExprError>)
    ensures
        r == unary_spec(op, *a),
{
    match op {
        UnOp::IsNull => Ok(Value::Bool(matches!(a, Value::Null))),
        UnOp::IsNotNull => Ok(Value::Bool(!matches!(a, Value::Null))),
        _ => match a {
            Value::Null => match op {
                UnOp::IsTrue | UnOp::IsFalse => Ok(Value::Bool(false)),
                _ => Ok(Value::Null),
            },
            Value::Bool(b) => match op {
                UnOp::Not => Ok(Value::Bool(!*b)),
                UnOp::IsTrue => Ok(Value::Bool(*b)),
                UnOp::IsFalse => Ok(Value::Bool(!*b)),
                _ => Err(ExprError::TypeMismatch),
            },
            Value::Int(x) => match op {
                UnOp::Plus => Ok(Value::Int(*x)),
                UnOp::Minus => match 0i64.checked_sub(*x) {
                    Some(v) => Ok(Value::Int(v)),
                    None => Err(ExprError::Overflow),
                },
                _ => Err(ExprError::TypeMismatch),
            },
            Value::Text(_) => Err(ExprError::TypeMismatch),
        },
    }
}

fn name_is(name: &String, lower: &str) -> (r: bool)
    ensures
        r == name_matches(name@, lower@),
{
    let n = name.as_str().unicode_len();
    let m = lower.unicode_len();
    if n != m {
        return false;
    }
    let mut i: usize = 0;
    while i < n
        invariant
            n == name@.len(),
            m == lower@.len(),
            n == m,
            i <= n,
            forall|k: int| 0 <= k < i ==> char_match(true, name@[k], lower@[k]),
        decreases n - i,
    {
        if !chars_match(true, name.as_str().get_char(i), lower.get_char(i)) {
            return false;
        }
        i = i + 1;
    }
    true
}

fn is_abs_name(name: &String) -> (r: bool)
    ensures
        r == is_abs(name@),
{
    proof {
        reveal_strlit("abs");
    }
    let r = name_is(name, "abs");
    assert("abs"@ == seq!['a', 'b', 's']);
    r
}

fn is_length_name(name: &String) -> (r: bool)
    ensures
        r == is_length(name@),
{
    proof {
        reveal_strlit("length");
    }
    let r = name_is(name, "length");
    assert("length"@ == seq!['l', 'e', 'n', 'g', 't', 'h']);
    r
}

/// A function of the registry applied to its evaluated argument.
pub fn apply_function(name: &String, a: &Value) -> (r: Result<Value, ExprError>)
    ensures
        r == function_spec(name@, *a),
{
    if is_abs_name(name) {
        match a {
            Value::Null => Ok(Value::Null),
            Value::Int(x) => if *x < 0 {
                match 0i64.checked_sub(*x) {
                    Some(v) => Ok(Value::Int(v)),
                    None => Err(ExprError::Overflow),
                }
            } else {
                Ok(Value::Int(*x))
            },
            _ => Err(ExprError::TypeMismatch),
        }
    } else {
        match a {
            Value::Null => Ok(Value::Null),
            Value::Text(s) => {
                let n = s.as_str().unicode_len();
                let n64 = n as u64;
                if n64 <= 0x7fff_ffff_ffff_ffff {
                    Ok(Value::Int(n64 as i64))
                } else {
                    Err(ExprError::Overflow)
                }
            },
            _ => Err(ExprError::TypeMismatch),
        }
    }
}

/// `x BETWEEN low AND high`: `(low <= x) AND (x <= high)`, under `NOT` when
/// `negated`. The operand is taken twice, `x_low` and `x_high`, as two copies
/// of `x`; evaluation is pure, so evaluating it twice is safe.
pub fn between(x_low: Expr, x_high: Expr, low: Expr, high: Expr, negated: bool) -> (r: Expr)
    ensures
        ({
            let b = Expr::Binary {
                left: Box::new(Expr::Binary { left: Box::new(low), op: BinOp::LessThanOrEqual, right: Box::new(x_low) }),
                op: BinOp::And,
                right: Box::new(Expr::Binary { left: Box::new(x_high), op: BinOp::LessThanOrEqual, right: Box::new(high) }),
            };
            r == if negated {
                Expr::Unary { op: UnOp::Not, operand: Box::new(b) }
            } else {
                b
            }
        }),
{
    let b = Expr::Binary {
        left: Box::new(Expr::Binary { left: Box::new(low), op: BinOp::LessThanOrEqual, right: Box::new(x_low) }),
        op: BinOp::And,
        right: Box::new(Expr::Binary { left: Box::new(x_high), op: BinOp::LessThanOrEqual, right: Box::new(high) }),
    };
    if negated {
        Expr::Unary { op: UnOp::Not, operand: Box::new(b) }
    } else {
        b
    }
}

impl ExprError {
    pub fn duplicate(&self) -> (r: ExprError)
        ensures
            r == *self,
    {
        match self {
            ExprError::ColumnNotFound(s) => ExprError::ColumnNotFound(s.clone()),
            ExprError::WildcardNotAllowed => ExprError::WildcardNotAllowed,
            ExprError::TypeMismatch => ExprError::TypeMismatch,
            ExprError::Overflow => ExprError::Overflow,
            ExprError::DivisionByZero => ExprError::DivisionByZero,
            ExprError::UnknownFunction(s) => ExprError::UnknownFunction(s.clone()),
            ExprError::WrongArgumentCount => ExprError::WrongArgumentCount,
        }
    }
}

impl ColumnRef {
    pub fn duplicate(&self) -> (r: ColumnRef)
        ensures
            r == *self,
    {
        let table = match &self.table {
            Some(t) => Some(t.clone()),
            None => None,
        };
        ColumnRef { table, name: self.name.clone() }
    }
}

fn duplicate_list(args: &Vec<Expr>) -> (r: Vec<Expr>)
    ensures
        r@.len() == args@.len(),
    decreases args,
{
    let mut copied: Vec<Expr> = Vec::new();
    let mut i: usize = 0;
    while i < args.len()
        invariant
            i <= args@.len(),
            copied@.len() == i,
        decreases args@.len() - i,
    {
        proof {
            vstd::std_specs::vec::axiom_vec_index_decreases(*args, i as int);
        }
        copied.push(args[i].duplicate());
        i = i + 1;
    }
    copied
}

impl Expr {
    /// A copy of this expression.
    pub(crate) fn duplicate(&self) -> (r: Expr)
        decreases self,
    {
        match self {
            Expr::Value(v) => Expr::Value(v.duplicate()),
            Expr::ColumnRef(c) => Expr::ColumnRef(c.duplicate()),
            Expr::Wildcard => Expr::Wildcard,
            Expr::Binary { left, op, right } => Expr::Binary {
                left: Box::new(left.duplicate()),
                op: *op,
                right: Box::new(right.duplicate()),
            },
            Expr::Unary { op, operand } => Expr::Unary {
                op: *op,
                operand: Box::new(operand.duplicate()),
            },
            Expr::Function { name, args } => Expr::Function {
                name: name.clone(),
                args: duplicate_list(args),
            },
        }
    }

    /// Evaluates this expression in the row `row` of `table`.
    pub fn execute(&self, table: &Table, row: &Row) -> (r: Result<Value, ExprError>)
        ensures
            r == eval_in(*self, *table, row.data@),
        decreases self,
    {
        match self {
            Expr::Value(v) => Ok(v.duplicate()),
            Expr::ColumnRef(c) => resolve(c, table, row),
            Expr::Wildcard => Err(ExprError::WildcardNotAllowed),
            Expr::Binary { left, op, right } => {
                let a = left.execute(table, row)?;
                let b = right.execute(table, row)?;
                apply_binary(*op, &a, &b)
            },
            Expr::Unary { op, operand } => {
                let a = operand.execute(table, row)?;
                apply_unary(*op, &a)
            },
            Expr::Function { name, args } => {
                if !is_abs_name(name) && !is_length_name(name) {
                    return Err(ExprError::UnknownFunction(name.clone()));
                }
                if args.len() != 1 {
                    return Err(ExprError::WrongArgumentCount);
                }
                let a = args[0].execute(table, row)?;
                apply_function(name, &a)
            },
        }
    }
}

} // verus!
