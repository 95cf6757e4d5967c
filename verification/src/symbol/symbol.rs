use vstd::prelude::*;
use vstd::std_specs::cmp::PartialEqSpecImpl;
use vstd::string::*;
use crate::ast::ast::{function_view, FunctionStatement, FunctionView};
use crate::symbol::number::Number;

verus! {

/// A value of the language.
#[derive(Debug)]
pub enum Symbol {
    Number(Number),
    Boolean(bool),
    String(StringSymbol),
    List(List),
    Range(Range),
    Nothing,
    Function(Box<FunctionStatement>),
    Object(Object),
}

/// A text value.
#[derive(Debug)]
pub struct StringSymbol {
    pub value: String,
}

/// An ordered sequence of values.
#[derive(Debug)]
pub struct List {
    pub items: Vec<Symbol>,
}

/// A mapping from property names to values, held as a list of entries. A
/// name is looked up from the front.
#[derive(Debug)]
pub struct Object {
    pub mapping: Vec<(String, Symbol)>,
}

/// An arithmetic sequence that is produced value by value: it starts at
/// `start`, moves by `increment` and stops before `end`. `ticker` is the value
/// that comes next.
#[derive(Debug, Clone, Copy)]
pub struct Range {
    pub start: i32,
    pub end: i32,
    pub increment: i32,
    pub ticker: i32,
}

/// What a `Symbol` stands for: the model that contracts speak of.
pub enum Value {
    Number(Number),
    Boolean(bool),
    String(Seq<char>),
    List(Seq<Value>),
    Range(Range),
    Nothing,
    Function(FunctionView),
    Object(Seq<(Seq<char>, Value)>),
}

/// The values of a run of symbols.
pub open spec fn views(items: Seq<Symbol>) -> Seq<Value>
    decreases items,
{
    Seq::new(
        items.len(),
        |i: int|
            if 0 <= i < items.len() {
                symbol_view(items[i])
            } else {
                Value::Nothing
            },
    )
}

/// The entries of an object, as names and values.
pub open spec fn entries_view(entries: Seq<(String, Symbol)>) -> Seq<(Seq<char>, Value)>
    decreases entries,
{
    Seq::new(
        entries.len(),
        |i: int|
            if 0 <= i < entries.len() {
                (entries[i].0@, symbol_view(entries[i].1))
            } else {
                (Seq::empty(), Value::Nothing)
            },
    )
}

/// The value that a symbol stands for.
pub open spec fn symbol_view(s: Symbol) -> Value
    decreases s,
{
    match s {
        Symbol::Number(n) => Value::Number(n),
        Symbol::Boolean(b) => Value::Boolean(b),
        Symbol::String(t) => Value::String(t.value@),
        Symbol::List(l) => Value::List(views(l.items@)),
        Symbol::Range(r) => Value::Range(r),
        Symbol::Nothing => Value::Nothing,
        Symbol::Function(f) => Value::Function(function_view(*f)),
        Symbol::Object(o) => Value::Object(entries_view(o.mapping@)),
    }
}

impl View for Symbol {
    type V = Value;

    open spec fn view(&self) -> Value {
        symbol_view(*self)
    }
}

impl View for StringSymbol {
    type V = Seq<char>;

    open spec fn view(&self) -> Seq<char> {
        self.value@
    }
}

impl View for List {
    type V = Seq<Value>;

    open spec fn view(&self) -> Seq<Value> {
        views(self.items@)
    }
}

impl View for Object {
    type V = Seq<(Seq<char>, Value)>;

    open spec fn view(&self) -> Seq<(Seq<char>, Value)> {
        entries_view(self.mapping@)
    }
}

/// The views of an optional symbol.
pub open spec fn option_value(s: Option<Symbol>) -> Option<Value> {
    match s {
        Some(s) => Some(s@),
        None => None,
    }
}

/// A copy of a run of symbols.
pub fn clone_symbols(items: &Vec<Symbol>) -> (r: Vec<Symbol>)
    ensures
        views(r@) == views(items@),
        r@.len() == items@.len(),
    decreases items, 0nat,
{
    let mut out: Vec<Symbol> = Vec::new();
    let mut i: usize = 0;
    while i < items.len()
        invariant
            i <= items.len(),
            out.len() == i,
            forall|k: int| 0 <= k < i ==> symbol_view(out[k]) == symbol_view(items[k]),
        decreases items.len() - i,
    {
        out.push(items[i].clone());
        i = i + 1;
    }
    proof {
        assert(views(out@) =~= views(items@));
    }
    out
}

fn clone_entries(entries: &Vec<(String, Symbol)>) -> (r: Vec<(String, Symbol)>)
    ensures
        entries_view(r@) == entries_view(entries@),
    decreases entries, 0nat,
{
    let mut out: Vec<(String, Symbol)> = Vec::new();
    let mut i: usize = 0;
    while i < entries.len()
        invariant
            i <= entries.len(),
            out.len() == i,
            forall|k: int|
                0 <= k < i ==> out[k].0@ == entries[k].0@ && symbol_view(out[k].1) == symbol_view(
                    entries[k].1,
                ),
        decreases entries.len() - i,
    {
        let entry = &entries[i];
        out.push((entry.0.clone(), entry.1.clone()));
        i = i + 1;
    }
    proof {
        assert(entries_view(out@) =~= entries_view(entries@));
    }
    out
}

impl Clone for Symbol {
    fn clone(&self) -> (r: Self)
        ensures
            r@ == self@,
        decreases self, 1nat,
    {
        match self {
            Symbol::Number(n) => Symbol::Number(*n),
            Symbol::Boolean(b) => Symbol::Boolean(*b),
            Symbol::String(t) => Symbol::String(StringSymbol { value: t.value.clone() }),
            Symbol::List(l) => Symbol::List(List { items: clone_symbols(&l.items) }),
            Symbol::Range(r) => Symbol::Range(*r),
            Symbol::Nothing => Symbol::Nothing,
            Symbol::Function(f) => Symbol::Function(Box::new((&**f).clone())),
            Symbol::Object(o) => Symbol::Object(Object { mapping: clone_entries(&o.mapping) }),
        }
    }
}

impl Clone for StringSymbol {
    fn clone(&self) -> (r: Self)
        ensures
            r@ == self@,
    {
        StringSymbol { value: self.value.clone() }
    }
}

impl Clone for List {
    fn clone(&self) -> (r: Self)
        ensures
            r@ == self@,
    {
        List { items: clone_symbols(&self.items) }
    }
}

impl Clone for Object {
    fn clone(&self) -> (r: Self)
        ensures
            r@ == self@,
    {
        Object { mapping: clone_entries(&self.mapping) }
    }
}

/// Whether a value counts as true: every value does but zero, `false`, the
/// empty string and `none`.
pub open spec fn truthy(v: Value) -> bool {
    match v {
        Value::Number(n) => !n.zero(),
        Value::Boolean(b) => b,
        Value::String(s) => s.len() > 0,
        Value::Nothing => false,
        _ => true,
    }
}

/// The name of the kind of a value.
pub open spec fn kind_name(v: Value) -> Seq<char> {
    match v {
        Value::Number(_) => "number"@,
        Value::Boolean(_) => "boolean"@,
        Value::Function(_) => "function"@,
        Value::String(_) => "string"@,
        Value::List(_) => "list"@,
        Value::Nothing => "none"@,
        Value::Range(_) => "range"@,
        Value::Object(_) => "object"@,
    }
}

/// Whether some entry of `entries` has the given name and a value equal to
/// the given one.
pub open spec fn has_equal_entry(entries: Seq<(Seq<char>, Value)>, name: Seq<char>, v: Value) -> bool
    decreases v, 2nat,
{
    exists|j: int|
        0 <= j < entries.len() && (#[trigger] entries[j]).0 == name && value_eq(v, entries[j].1)
}

/// Equality of values. Numbers are equal as numbers, booleans, strings and
/// `none` as themselves, lists item by item, objects name by name. A function
/// equals nothing, not even itself, nor does a range; values of two kinds
/// are never equal.
pub open spec fn value_eq(a: Value, b: Value) -> bool
    decreases a, 1nat,
{
    match a {
        Value::Number(x) => b is Number && x.same_value(b->Number_0),
        Value::Boolean(x) => b is Boolean && x == b->Boolean_0,
        Value::String(x) => b is String && x == b->String_0,
        Value::Nothing => b is Nothing,
        Value::List(x) => b is List && x.len() == b->List_0.len() && forall|i: int|
            0 <= i < x.len() ==> value_eq(#[trigger] x[i], b->List_0[i]),
        Value::Object(x) => b is Object && x.len() == b->Object_0.len() && forall|i: int|
            0 <= i < x.len() ==> has_equal_entry(b->Object_0, (#[trigger] x[i]).0, x[i].1),
        Value::Range(_) => false,
        Value::Function(_) => false,
    }
}

impl Symbol {
    /// Whether the value counts as true.
    pub fn is_truthy(&self) -> (r: bool)
        ensures
            r == truthy(self@),
    {
        match self {
            Symbol::Number(n) => !n.is_zero(),
            Symbol::Boolean(b) => *b,
            Symbol::Function(_) => true,
            Symbol::String(s) => s.value.as_str().unicode_len() > 0,
            Symbol::List(_) => true,
            Symbol::Nothing => false,
            Symbol::Range(_) => true,
            Symbol::Object(_) => true,
        }
    }

    /// The name of the kind of the value.
    pub fn kind(&self) -> (r: String)
        ensures
            r@ == kind_name(self@),
    {
        let s = match self {
            Symbol::Number(_) => "number",
            Symbol::Boolean(_) => "boolean",
            Symbol::Function(_) => "function",
            Symbol::String(_) => "string",
            Symbol::List(_) => "list",
            Symbol::Nothing => "none",
            Symbol::Range(_) => "range",
            Symbol::Object(_) => "object",
        };
        String::from_str(s)
    }

    /// Whether two values are equal.
    pub fn equals(&self, other: &Symbol) -> (r: bool)
        ensures
            r == value_eq(self@, other@),
        decreases self, 1nat,
    {
        match self {
            Symbol::Number(x) => match other {
                Symbol::Number(y) => x.equals(*y),
                _ => false,
            },
            Symbol::Boolean(x) => match other {
                Symbol::Boolean(y) => *x == *y,
                _ => false,
            },
            Symbol::String(x) => match other {
                Symbol::String(y) => x.value == y.value,
                _ => false,
            },
            Symbol::Nothing => matches!(other, Symbol::Nothing),
            Symbol::List(x) => match other {
                Symbol::List(y) => Self::items_equal(&x.items, &y.items),
                _ => false,
            },
            Symbol::Object(x) => match other {
                Symbol::Object(y) => Self::entries_equal(&x.mapping, &y.mapping),
                _ => false,
            },
            Symbol::Range(_) => false,
            Symbol::Function(_) => false,
        }
    }

    /// Whether two runs of values are equal item by item.
    fn items_equal(x: &Vec<Symbol>, y: &Vec<Symbol>) -> (r: bool)
        ensures
            r == value_eq(Value::List(views(x@)), Value::List(views(y@))),
        decreases x, 0nat,
    {
        if x.len() != y.len() {
            return false;
        }
        let mut i: usize = 0;
        while i < x.len()
            invariant
                i <= x.len(),
                x.len() == y.len(),
                forall|k: int| 0 <= k < i ==> value_eq(#[trigger] views(x@)[k], views(y@)[k]),
            decreases x.len() - i,
        {
            if !x[i].equals(&y[i]) {
                proof {
                    assert(!value_eq(views(x@)[i as int], views(y@)[i as int]));
                }
                return false;
            }
            i = i + 1;
        }
        true
    }

    /// Whether every entry of `x` has an equal entry of the same name in
    /// `y`, and both have as many entries.
    fn entries_equal(x: &Vec<(String, Symbol)>, y: &Vec<(String, Symbol)>) -> (r: bool)
        ensures
            r == value_eq(Value::Object(entries_view(x@)), Value::Object(entries_view(y@))),
        decreases x, 0nat,
    {
        if x.len() != y.len() {
            return false;
        }
        let mut i: usize = 0;
        while i < x.len()
            invariant
                i <= x.len(),
                x.len() == y.len(),
                forall|k: int|
                    0 <= k < i ==> has_equal_entry(
                        entries_view(y@),
                        (#[trigger] entries_view(x@)[k]).0,
                        entries_view(x@)[k].1,
                    ),
            decreases x.len() - i,
        {
            let entry = &x[i];
            if !Self::entry_among(&entry.0, &entry.1, y) {
                proof {
                    let k = i as int;
                    assert(!has_equal_entry(
                        entries_view(y@),
                        entries_view(x@)[k].0,
                        entries_view(x@)[k].1,
                    ));
                }
                return false;
            }
            i = i + 1;
        }
        true
    }

    /// Whether some entry has the given name and a value equal to the given
    /// one.
    fn entry_among(name: &String, value: &Symbol, entries: &Vec<(String, Symbol)>) -> (r: bool)
        ensures
            r == has_equal_entry(entries_view(entries@), name@, value@),
        decreases value, 2nat,
    {
        let mut j: usize = 0;
        while j < entries.len()
            invariant
                j <= entries.len(),
                forall|k: int|
                    0 <= k < j ==> !((#[trigger] entries_view(entries@)[k]).0 == name@ && value_eq(
                        value@,
                        entries_view(entries@)[k].1,
                    )),
            decreases entries.len() - j,
        {
            let entry = &entries[j];
            if entry.0 == *name && value.equals(&entry.1) {
                proof {
                    let k = j as int;
                    assert(entries_view(entries@)[k].0 == name@ && value_eq(
                        value@,
                        entries_view(entries@)[k].1,
                    ));
                }
                return true;
            }
            j = j + 1;
        }
        false
    }
}

impl PartialEq for Symbol {
    fn eq(&self, other: &Symbol) -> (r: bool) {
        self.equals(other)
    }
}

impl PartialEqSpecImpl for Symbol {
    open spec fn obeys_eq_spec() -> bool {
        true
    }

    open spec fn eq_spec(&self, other: &Symbol) -> bool {
        value_eq(self@, other@)
    }
}

} // verus!
