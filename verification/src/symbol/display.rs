use vstd::prelude::*;
use vstd::string::*;
use crate::common::utils::{debug_quote, debug_text, i32_to_string, signed_decimal_text};
use crate::symbol::number::Number;
use crate::symbol::symbol::{entries_view, symbol_view, views, Symbol, Value};

verus! {

/// The text that a table of numbers and their texts gives a number: that of
/// the first entry for the number, or no text where there is none.
pub open spec fn number_text(table: Seq<(Number, Seq<char>)>, n: Number) -> Seq<char>
    decreases table.len(),
{
    if table.len() == 0 {
        Seq::empty()
    } else if table.first().0 == n {
        table.first().1
    } else {
        number_text(table.drop_first(), n)
    }
}

/// The first `upto` items of a list as they are written out: each as a quoted
/// text, with a comma and a space between two.
pub open spec fn rendered_items(
    items: Seq<Value>,
    table: Seq<(Number, Seq<char>)>,
    upto: nat,
) -> Seq<char>
    decreases items, upto,
{
    if upto == 0 || upto > items.len() {
        Seq::empty()
    } else if upto == 1 {
        debug_text(rendered(items[0], table))
    } else {
        rendered_items(items, table, (upto - 1) as nat) + ", "@ + debug_text(
            rendered(items[upto - 1], table),
        )
    }
}

/// The first `upto` entries of an object as they are written out: each as
/// its name in quotes, a colon and its value, with a comma and a space between
/// two.
pub open spec fn rendered_entries(
    entries: Seq<(Seq<char>, Value)>,
    table: Seq<(Number, Seq<char>)>,
    upto: nat,
) -> Seq<char>
    decreases entries, upto,
{
    if upto == 0 || upto > entries.len() {
        Seq::empty()
    } else if upto == 1 {
        debug_text(entries[0].0) + ": "@ + rendered(entries[0].1, table)
    } else {
        rendered_entries(entries, table, (upto - 1) as nat) + ", "@ + debug_text(
            entries[upto - 1].0,
        ) + ": "@ + rendered(entries[upto - 1].1, table)
    }
}

/// A value as it is written out, where it is printed and where it becomes
/// part of a command or of a template string. The texts of the numbers in
/// it are taken from a table, which is made outside this library.
pub open spec fn rendered(v: Value, table: Seq<(Number, Seq<char>)>) -> Seq<char>
    decreases v, 0nat,
{
    match v {
        Value::Number(n) => number_text(table, n),
        Value::Boolean(b) => if b {
            "true"@
        } else {
            "false"@
        },
        Value::Function(f) => "func "@ + f.name,
        Value::String(s) => s,
        Value::Nothing => "none"@,
        Value::List(items) => "["@ + rendered_items(items, table, items.len()) + "]"@,
        Value::Range(r) => signed_decimal_text(r.start as int) + ".."@ + signed_decimal_text(
            r.end as int,
        ) + ".."@ + signed_decimal_text(r.increment as int),
        Value::Object(entries) => "{"@ + rendered_entries(entries, table, entries.len()) + "}"@,
    }
}

/// The numbers in the first `upto` items of a list, in the order of the
/// items.
pub open spec fn numbers_in_items(items: Seq<Value>, upto: nat) -> Seq<Number>
    decreases items, upto,
{
    if upto == 0 || upto > items.len() {
        Seq::empty()
    } else {
        numbers_in_items(items, (upto - 1) as nat) + numbers_in(items[upto - 1])
    }
}

/// The numbers in the first `upto` entries of an object, in the order of the
/// entries.
pub open spec fn numbers_in_entries(entries: Seq<(Seq<char>, Value)>, upto: nat) -> Seq<Number>
    decreases entries, upto,
{
    if upto == 0 || upto > entries.len() {
        Seq::empty()
    } else {
        numbers_in_entries(entries, (upto - 1) as nat) + numbers_in(entries[upto - 1].1)
    }
}

/// The numbers that a value holds, itself or in its items and properties,
/// in the order in which they are written out.
pub open spec fn numbers_in(v: Value) -> Seq<Number>
    decreases v, 0nat,
{
    match v {
        Value::Number(n) => seq![n],
        Value::List(items) => numbers_in_items(items, items.len()),
        Value::Object(entries) => numbers_in_entries(entries, entries.len()),
        _ => Seq::empty(),
    }
}

/// The texts of a table of numbers.
pub open spec fn table_view(table: Seq<(Number, String)>) -> Seq<(Number, Seq<char>)> {
    Seq::new(table.len(), |i: int| (table[i].0, table[i].1@))
}

/// The text that a table gives a number.
pub fn text_of_number(table: &Vec<(Number, String)>, n: Number) -> (r: String)
    ensures
        r@ == number_text(table_view(table@), n),
{
    let mut i: usize = 0;
    proof {
        assert(table_view(table@).skip(0) =~= table_view(table@));
    }
    while i < table.len()
        invariant
            i <= table.len(),
            number_text(table_view(table@), n) == number_text(
                table_view(table@).skip(i as int),
                n,
            ),
        decreases table.len() - i,
    {
        proof {
            let rest = table_view(table@).skip(i as int);
            assert(rest.first() == (table@[i as int].0, table@[i as int].1@));
            assert(rest.drop_first() =~= table_view(table@).skip(i + 1));
        }
        if table[i].0.bits == n.bits {
            return table[i].1.clone();
        }
        i = i + 1;
    }
    String::new()
}

fn write_items(items: &Vec<Symbol>, table: &Vec<(Number, String)>) -> (r: String)
    ensures
        r@ == rendered_items(views(items@), table_view(table@), items@.len()),
    decreases items, 0nat,
{
    let mut out = String::new();
    let mut i: usize = 0;
    while i < items.len()
        invariant
            i <= items.len(),
            out@ == rendered_items(views(items@), table_view(table@), i as nat),
        decreases items.len() - i,
    {
        let text = items[i].to_string_with(table);
        let quoted = debug_quote(text.as_str());
        if i > 0 {
            out.append(", ");
        }
        out.append(quoted.as_str());
        i = i + 1;
    }
    out
}

fn write_entries(entries: &Vec<(String, Symbol)>, table: &Vec<(Number, String)>) -> (r: String)
    ensures
        r@ == rendered_entries(entries_view(entries@), table_view(table@), entries@.len()),
    decreases entries, 0nat,
{
    let mut out = String::new();
    let mut i: usize = 0;
    while i < entries.len()
        invariant
            i <= entries.len(),
            out@ == rendered_entries(entries_view(entries@), table_view(table@), i as nat),
        decreases entries.len() - i,
    {
        let entry = &entries[i];
        let name = debug_quote(entry.0.as_str());
        let text = entry.1.to_string_with(table);
        if i > 0 {
            out.append(", ");
        }
        out.append(name.as_str());
        out.append(": ");
        out.append(text.as_str());
        proof {
            let all = entries_view(entries@);
            assert(all[i as int].0 == entry.0@);
            assert(all[i as int].1 == entry.1@);
        }
        i = i + 1;
    }
    out
}

/// The numbers that a run of values holds, in the order in which they are
/// written out.
pub fn collect_numbers(items: &Vec<Symbol>) -> (r: Vec<Number>)
    ensures
        r@ == numbers_in_items(views(items@), items@.len()),
    decreases items, 0nat,
{
    let mut out: Vec<Number> = Vec::new();
    let mut i: usize = 0;
    while i < items.len()
        invariant
            i <= items.len(),
            out@ == numbers_in_items(views(items@), i as nat),
        decreases items.len() - i,
    {
        let mut more = items[i].numbers();
        out.append(&mut more);
        i = i + 1;
    }
    out
}

fn collect_entries(entries: &Vec<(String, Symbol)>) -> (r: Vec<Number>)
    ensures
        r@ == numbers_in_entries(entries_view(entries@), entries@.len()),
    decreases entries, 0nat,
{
    let mut out: Vec<Number> = Vec::new();
    let mut i: usize = 0;
    while i < entries.len()
        invariant
            i <= entries.len(),
            out@ == numbers_in_entries(entries_view(entries@), i as nat),
        decreases entries.len() - i,
    {
        let entry = &entries[i];
        let mut more = entry.1.numbers();
        proof {
            assert(entries_view(entries@)[i as int].1 == entry.1@);
        }
        out.append(&mut more);
        i = i + 1;
    }
    out
}

impl Symbol {
    /// The numbers that the value holds, in the order in which they are
    /// written out.
    pub fn numbers(&self) -> (r: Vec<Number>)
        ensures
            r@ == numbers_in(self@),
        decreases self, 1nat,
    {
        match self {
            Symbol::Number(n) => {
                let mut out: Vec<Number> = Vec::new();
                out.push(*n);
                proof {
                    assert(out@ =~= seq![*n]);
                }
                out
            },
            Symbol::List(list) => collect_numbers(&list.items),
            Symbol::Object(object) => collect_entries(&object.mapping),
            _ => Vec::new(),
        }
    }

    /// Writes the value out, with the texts of its numbers taken from a
    /// table.
    pub fn to_string_with(&self, table: &Vec<(Number, String)>) -> (r: String)
        ensures
            r@ == rendered(self@, table_view(table@)),
        decreases self, 1nat,
    {
        match self {
            Symbol::Number(n) => text_of_number(table, *n),
            Symbol::Boolean(b) => if *b {
                String::from_str("true")
            } else {
                String::from_str("false")
            },
            Symbol::Function(f) => String::from_str("func ").concat(f.name.as_str()),
            Symbol::String(s) => s.value.clone(),
            Symbol::Nothing => String::from_str("none"),
            Symbol::List(list) => {
                String::from_str("[").concat(write_items(&list.items, table).as_str()).concat("]")
            },
            Symbol::Range(range) => {
                i32_to_string(range.start).concat("..").concat(
                    i32_to_string(range.end).as_str(),
                ).concat("..").concat(i32_to_string(range.increment).as_str())
            },
            Symbol::Object(object) => {
                String::from_str("{").concat(
                    write_entries(&object.mapping, table).as_str(),
                ).concat("}")
            },
        }
    }
}

} // verus!
