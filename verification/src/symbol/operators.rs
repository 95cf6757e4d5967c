use vstd::prelude::*;
use vstd::string::*;
use vstd::utf8::*;
use crate::common::utils::{bytes_below, str_below};
use crate::error::{Error, ErrorKind};
use crate::lexer::token::TokenType;
use crate::symbol::list::{call_agrees, list_call};
use crate::symbol::number::Number;
use crate::symbol::string::string_call;
use crate::symbol::symbol::{truthy, value_eq, views, StringSymbol, Symbol, Value};

verus! {

/// The operations on two numbers whose result this library does not compute
/// itself.
#[derive(Debug, Clone, Copy, PartialEq, Eq, Structural)]
pub enum Arithmetic {
    Add,
    Subtract,
    Multiply,
    Divide,
    Power,
}

/// An operation on two numbers that is handed out to be computed.
#[derive(Debug, Clone, Copy, PartialEq, Eq, Structural)]
pub struct Computation {
    pub operation: Arithmetic,
    pub left: Number,
    pub right: Number,
}

/// What a binary operator gives on two values: a value, or an operation on
/// two numbers that is still to be computed.
#[derive(Debug)]
pub enum Outcome<V = Symbol> {
    Value(V),
    Compute(Computation),
}

impl View for Outcome<Symbol> {
    type V = Outcome<Value>;

    open spec fn view(&self) -> Outcome<Value> {
        match self {
            Outcome::Value(s) => Outcome::Value(s@),
            Outcome::Compute(c) => Outcome::Compute(*c),
        }
    }
}

/// The arithmetic operation that an operator stands for, if it is one.
pub open spec fn arithmetic_of(operator: TokenType<Seq<char>>) -> Option<Arithmetic> {
    match operator {
        TokenType::Plus => Some(Arithmetic::Add),
        TokenType::Minus => Some(Arithmetic::Subtract),
        TokenType::Asterisk => Some(Arithmetic::Multiply),
        TokenType::ForwardSlash => Some(Arithmetic::Divide),
        TokenType::Carat => Some(Arithmetic::Power),
        _ => None,
    }
}

/// Whether `<`, `>`, `<=` or `>=` holds of two values. Two numbers, two
/// booleans (`false` before `true`) and two strings (by their bytes) can be
/// compared, and nothing else.
pub open spec fn relation(left: Value, operator: TokenType<Seq<char>>, right: Value) -> Result<
    bool,
    ErrorKind,
> {
    if !(operator is GreaterThan || operator is LessThan || operator is Ge || operator is Le) {
        Err(ErrorKind::Type)
    } else {
        match (left, right) {
            (Value::Number(l), Value::Number(r)) => Ok(
                match operator {
                    TokenType::GreaterThan => r.below(l),
                    TokenType::LessThan => l.below(r),
                    TokenType::Ge => r.below(l) || l.same_value(r),
                    _ => l.below(r) || l.same_value(r),
                },
            ),
            (Value::Boolean(l), Value::Boolean(r)) => Ok(
                match operator {
                    TokenType::GreaterThan => l && !r,
                    TokenType::LessThan => !l && r,
                    TokenType::Ge => l || !r,
                    _ => !l || r,
                },
            ),
            (Value::String(l), Value::String(r)) => Ok(
                match operator {
                    TokenType::GreaterThan => bytes_below(encode_utf8(r), encode_utf8(l)),
                    TokenType::LessThan => bytes_below(encode_utf8(l), encode_utf8(r)),
                    TokenType::Ge => bytes_below(encode_utf8(r), encode_utf8(l)) || l == r,
                    _ => bytes_below(encode_utf8(l), encode_utf8(r)) || l == r,
                },
            ),
            _ => Err(ErrorKind::Type),
        }
    }
}

/// What a binary operator gives on two values that have both been
/// evaluated.
///
/// `+` puts two strings together; on two numbers it is arithmetic, as `-`,
/// `*`, `/` and `^` are, and they take nothing but numbers. `==` and `!=`
/// tell whether the values are equal. `<`, `>`, `<=` and `>=` compare two
/// values of one kind. `&&` gives the right value as it is where the left
/// one counts as true, and the left one else; `||` gives the left value where
/// it counts as true, and the right one else. Neither makes a boolean of what
/// it gives. Nothing else is an operator.
pub open spec fn binary(left: Value, operator: TokenType<Seq<char>>, right: Value) -> Result<
    Outcome<Value>,
    ErrorKind,
> {
    match operator {
        TokenType::Plus => match (left, right) {
            (Value::Number(l), Value::Number(r)) => Ok(
                Outcome::Compute(Computation { operation: Arithmetic::Add, left: l, right: r }),
            ),
            (Value::String(l), Value::String(r)) => Ok(Outcome::Value(Value::String(l + r))),
            _ => Err(ErrorKind::Type),
        },
        TokenType::Minus | TokenType::Asterisk | TokenType::ForwardSlash | TokenType::Carat => match (
            left,
            right,
        ) {
            (Value::Number(l), Value::Number(r)) => Ok(
                Outcome::Compute(
                    Computation { operation: arithmetic_of(operator)->0, left: l, right: r },
                ),
            ),
            _ => Err(ErrorKind::Type),
        },
        TokenType::DoubleEquals => Ok(Outcome::Value(Value::Boolean(value_eq(left, right)))),
        TokenType::NotEquals => Ok(Outcome::Value(Value::Boolean(!value_eq(left, right)))),
        TokenType::And => Ok(
            Outcome::Value(
                if truthy(left) {
                    right
                } else {
                    left
                },
            ),
        ),
        TokenType::Or => Ok(
            Outcome::Value(
                if truthy(left) {
                    left
                } else {
                    right
                },
            ),
        ),
        TokenType::GreaterThan | TokenType::LessThan | TokenType::Ge | TokenType::Le => match relation(
            left,
            operator,
            right,
        ) {
            Ok(b) => Ok(Outcome::Value(Value::Boolean(b))),
            Err(e) => Err(e),
        },
        _ => Err(ErrorKind::Type),
    }
}

/// Whether an operator compares or combines truth values: `&&`, `||`, `==`,
/// `!=`, `<`, `>`, `<=`, `>=`.
pub fn is_comparative_operator(operator: &TokenType) -> (r: bool)
    ensures
        r == (operator@ is And || operator@ is Or || operator@ is DoubleEquals || operator@
            is NotEquals || operator@ is GreaterThan || operator@ is LessThan || operator@ is Ge
            || operator@ is Le),
{
    match operator {
        TokenType::And
        | TokenType::Or
        | TokenType::DoubleEquals
        | TokenType::NotEquals
        | TokenType::GreaterThan
        | TokenType::LessThan
        | TokenType::Ge
        | TokenType::Le => true,
        _ => false,
    }
}

/// Whether `<`, `>`, `<=` or `>=` holds of two values.
pub fn compare_relational(left: &Symbol, op: &TokenType, right: &Symbol) -> (r: Result<bool, Error>)
    ensures
        match relation(left@, op@, right@) {
            Ok(b) => r == Ok::<bool, Error>(b),
            Err(kind) => r is Err && r->Err_0@ == kind,
        },
{
    let greater = matches!(op, TokenType::GreaterThan);
    let less = matches!(op, TokenType::LessThan);
    let at_least = matches!(op, TokenType::Ge);
    let at_most = matches!(op, TokenType::Le);
    if !(greater || less || at_least || at_most) {
        return Err(Error::new(ErrorKind::Type, "unable to compare literals"));
    }
    match left {
        Symbol::Number(l) => match right {
            Symbol::Number(r) => Ok(
                if greater {
                    r.less_than(*l)
                } else if less {
                    l.less_than(*r)
                } else if at_least {
                    r.less_than(*l) || l.equals(*r)
                } else {
                    l.less_than(*r) || l.equals(*r)
                },
            ),
            _ => Err(Error::new(ErrorKind::Type, "type mismatch")),
        },
        Symbol::Boolean(l) => match right {
            Symbol::Boolean(r) => Ok(
                if greater {
                    *l && !*r
                } else if less {
                    !*l && *r
                } else if at_least {
                    *l || !*r
                } else {
                    !*l || *r
                },
            ),
            _ => Err(Error::new(ErrorKind::Type, "type mismatch")),
        },
        Symbol::String(l) => match right {
            Symbol::String(r) => Ok(
                if greater {
                    str_below(r.value.as_str(), l.value.as_str())
                } else if less {
                    str_below(l.value.as_str(), r.value.as_str())
                } else if at_least {
                    str_below(r.value.as_str(), l.value.as_str()) || l.value == r.value
                } else {
                    str_below(l.value.as_str(), r.value.as_str()) || l.value == r.value
                },
            ),
            _ => Err(Error::new(ErrorKind::Type, "type mismatch")),
        },
        _ => Err(Error::new(ErrorKind::Type, "type mismatch")),
    }
}

/// The operation on two numbers, if both values are numbers.
fn computation(operation: Arithmetic, left: &Symbol, right: &Symbol) -> (r: Result<
    Outcome,
    Error,
>)
    ensures
        match (left@, right@) {
            (Value::Number(x), Value::Number(y)) => r is Ok && r->Ok_0@ == Outcome::<
                Value,
            >::Compute(Computation { operation, left: x, right: y }),
            _ => r is Err && r->Err_0@ == ErrorKind::Type,
        },
{
    match left {
        Symbol::Number(l) => match right {
            Symbol::Number(r) => Ok(
                Outcome::Compute(Computation { operation, left: *l, right: *r }),
            ),
            _ => Err(Error::new(ErrorKind::Type, "unsupported operand type")),
        },
        _ => Err(Error::new(ErrorKind::Type, "unsupported operand type")),
    }
}

/// Applies a binary operator to two values that have both been evaluated.
pub fn eval_binary_expression(left: &Symbol, operator: &TokenType, right: &Symbol) -> (r: Result<
    Outcome,
    Error,
>)
    ensures
        match binary(left@, operator@, right@) {
            Ok(outcome) => r is Ok && r->Ok_0@ == outcome,
            Err(kind) => r is Err && r->Err_0@ == kind,
        },
{
    match operator {
        TokenType::Plus => match left {
            Symbol::String(l) => match right {
                Symbol::String(r) => {
                    let value = l.value.clone().concat(r.value.as_str());
                    Ok(Outcome::Value(Symbol::String(StringSymbol::new(value))))
                },
                _ => Err(Error::new(ErrorKind::Type, "unsupported operand type for +")),
            },
            _ => computation(Arithmetic::Add, left, right),
        },
        TokenType::Minus => computation(Arithmetic::Subtract, left, right),
        TokenType::Asterisk => computation(Arithmetic::Multiply, left, right),
        TokenType::ForwardSlash => computation(Arithmetic::Divide, left, right),
        TokenType::Carat => computation(Arithmetic::Power, left, right),
        TokenType::DoubleEquals => Ok(Outcome::Value(Symbol::Boolean(left.equals(right)))),
        TokenType::NotEquals => Ok(Outcome::Value(Symbol::Boolean(!left.equals(right)))),
        TokenType::And => {
            if left.is_truthy() {
                Ok(Outcome::Value(right.clone()))
            } else {
                Ok(Outcome::Value(left.clone()))
            }
        },
        TokenType::Or => {
            if left.is_truthy() {
                Ok(Outcome::Value(left.clone()))
            } else {
                Ok(Outcome::Value(right.clone()))
            }
        },
        TokenType::GreaterThan | TokenType::LessThan | TokenType::Ge | TokenType::Le => {
            match compare_relational(left, operator, right) {
                Ok(b) => Ok(Outcome::Value(Symbol::Boolean(b))),
                Err(e) => Err(e),
            }
        },
        _ => Err(Error::new(ErrorKind::Type, "unsupported operator")),
    }
}

/// What a built-in method does to a value and returns, by the name of the
/// method. Lists and strings have methods, and nothing else has.
pub open spec fn method_call(receiver: Value, name: Seq<char>, args: Seq<Value>) -> Result<
    (Value, Option<Value>),
    ErrorKind,
> {
    match receiver {
        Value::List(items) => match list_call(items, name, args) {
            Ok((after, result)) => Ok((Value::List(after), result)),
            Err(e) => Err(e),
        },
        Value::String(text) => match string_call(text, name, args) {
            Ok((after, result)) => Ok((Value::String(after), result)),
            Err(e) => Err(e),
        },
        _ => Err(ErrorKind::Type),
    }
}

/// What an index gives to write to: an item of a list. A string cannot be
/// written into, and nothing else has items.
pub open spec fn indexed_kind(receiver: Value, index: usize) -> Result<int, ErrorKind> {
    match receiver {
        Value::List(items) => if index < items.len() {
            Ok(index as int)
        } else {
            Err(ErrorKind::Bounds)
        },
        Value::String(_) => Err(ErrorKind::Unsupported),
        _ => Err(ErrorKind::Type),
    }
}

impl Symbol {
    /// Calls a built-in method of the value by its name. On an error the
    /// value stays as it was.
    pub fn call(&mut self, call: &str, args: Vec<Symbol>) -> (r: Result<Option<Symbol>, Error>)
        ensures
            call_agrees(
                method_call(old(self)@, call@, views(args@)),
                old(self)@,
                final(self)@,
                r,
            ),
    {
        match self {
            Symbol::List(list) => list.call(call, args),
            Symbol::String(ss) => ss.call(call, args),
            _ => Err(Error::with_detail(ErrorKind::Type, "value has no member ", call)),
        }
    }

    /// The item at an index, to be written to.
    pub fn get_index_mut(&mut self, index: usize) -> (r: Result<&mut Symbol, Error>)
        ensures
            match indexed_kind(old(self)@, index) {
                Ok(i) => r is Ok && *old(self) is List && *final(self) is List && *r->Ok_0 == (*old(
                    self,
                ))->List_0.items@[i] && (*final(self))->List_0.items@ == (*old(
                    self,
                ))->List_0.items@.update(i, *final(r->Ok_0)),
                Err(kind) => r is Err && r->Err_0@ == kind && final(self)@ == old(self)@,
            },
    {
        match self {
            Symbol::List(list) => list.get_mut(index),
            Symbol::String(_) => Err(
                Error::new(ErrorKind::Unsupported, "mutable index access for strings"),
            ),
            _ => Err(Error::new(ErrorKind::Type, "object is not indexable")),
        }
    }
}

} // verus!
