use vstd::prelude::*;
use crate::ast::ast::{FunctionView, Node, TemplateToken};
use crate::ast::evaluator::machine::{
    fail,
    go,
    Action,
    Gathering,
    Iteration,
    Machine,
    Purpose,
    Reply,
    Step,
    Task,
    TaskView,
};
use crate::error::ErrorKind;
use crate::lexer::token::TokenType;
use crate::symbol::display::{number_text, numbers_in, numbers_in_items, rendered};
use crate::symbol::number::Number;
use crate::symbol::object::{entry_index, property};
use crate::symbol::operators::{binary, method_call, Outcome};
use crate::symbol::scope::ScopeKind;
use crate::symbol::string::char_value;
use crate::symbol::symbol::{truthy, Range, Value};
use crate::symbol::table::TableView;

verus! {

/// The model of a reply.
pub type ReplyView = Reply<Seq<Seq<char>>, Seq<char>>;

/// The model of a kind of gathering.
pub type GatheringView = Gathering<Node, Seq<char>, FunctionView>;

/// The model of a place in a loop.
pub type IterationView = Iteration<Seq<Value>, Seq<char>>;

/// A value that is given, or `none`.
pub open spec fn or_nothing(v: Option<Value>) -> Value {
    match v {
        Some(v) => v,
        None => Value::Nothing,
    }
}

/// Where a value is kept that can be written to: under a name, or as a
/// property of the object under a name.
pub struct Place {
    pub name: Seq<char>,
    pub property: Option<Seq<char>>,
}

/// The place that a node names: a variable that is bound, or a property that
/// the object of a bound variable has.
pub open spec fn place_of(table: TableView, node: Node) -> Result<Place, ErrorKind> {
    match node {
        Node::Identifier(name) => match table.lookup(name) {
            Some(_) => Ok(Place { name, property: None }),
            None => Err(ErrorKind::Name),
        },
        Node::Member { base, property } => match *base {
            Node::Identifier(name) => match table.lookup(name) {
                None => Err(ErrorKind::Name),
                Some(Value::Object(entries)) => if entry_index(entries, property) is Some {
                    Ok(Place { name, property: Some(property) })
                } else {
                    Err(ErrorKind::Name)
                },
                Some(_) => Err(ErrorKind::Type),
            },
            _ => Err(ErrorKind::Unsupported),
        },
        _ => Err(ErrorKind::Unsupported),
    }
}

/// The value at a place.
pub open spec fn place_value(table: TableView, place: Place) -> Value {
    match place.property {
        None => or_nothing(table.lookup(place.name)),
        Some(p) => match table.lookup(place.name) {
            Some(Value::Object(entries)) => property(entries, p),
            _ => Value::Nothing,
        },
    }
}

/// The bindings after a value was written to a place.
pub open spec fn place_written(table: TableView, place: Place, v: Value) -> TableView {
    match place.property {
        None => table.assigned(place.name, v),
        Some(p) => match table.lookup(place.name) {
            Some(Value::Object(entries)) => match entry_index(entries, p) {
                Some(i) => table.assigned(
                    place.name,
                    Value::Object(entries.update(i, (entries[i].0, v))),
                ),
                None => table,
            },
            _ => table,
        },
    }
}

/// The first `upto` values written out one behind the other.
pub open spec fn written_out(values: Seq<Value>, table: Seq<(Number, Seq<char>)>, upto: nat) -> Seq<
    char,
>
    decreases upto,
{
    if upto == 0 || upto > values.len() {
        Seq::empty()
    } else {
        written_out(values, table, (upto - 1) as nat) + rendered(values[upto - 1], table)
    }
}

/// The table that gives each number the text that came back for it.
pub open spec fn text_table(numbers: Seq<Number>, texts: Seq<Seq<char>>) -> Seq<
    (Number, Seq<char>),
> {
    Seq::new(
        if numbers.len() <= texts.len() {
            numbers.len()
        } else {
            texts.len()
        },
        |i: int| (numbers[i], texts[i]),
    )
}

/// The values that the parts of a template string stand for: its texts, and
/// the values of its names, which have to be bound.
pub open spec fn template_values(
    table: TableView,
    parts: Seq<TemplateToken<Seq<char>>>,
    upto: nat,
) -> Result<Seq<Value>, ErrorKind>
    decreases upto,
{
    if upto == 0 || upto > parts.len() {
        Ok(Seq::empty())
    } else {
        match template_values(table, parts, (upto - 1) as nat) {
            Err(e) => Err(e),
            Ok(values) => match parts[upto - 1] {
                TemplateToken::Literal(text) => Ok(values.push(Value::String(text))),
                TemplateToken::Expression(name) => match table.lookup(name) {
                    Some(v) => Ok(values.push(v)),
                    None => Err(ErrorKind::Name),
                },
            },
        }
    }
}

/// The text is made: a template string has its value, a command is handed
/// out to be run.
pub open spec fn said(m: Machine, purpose: Purpose, text: Seq<char>) -> Step {
    match purpose {
        Purpose::Template => go(m.push(Some(Value::String(text)))),
        Purpose::Command => (m.plan(Task::AwaitOutput), Action::Run(text)),
    }
}

/// Values are to be written out as one text. Where they hold numbers, the
/// texts of the numbers are asked for first.
pub open spec fn speak(m: Machine, purpose: Purpose, values: Seq<Value>) -> Step {
    let numbers = numbers_in_items(values, values.len());
    if numbers.len() == 0 {
        said(m, purpose, written_out(values, Seq::empty(), values.len()))
    } else {
        (m.plan(Task::AwaitTexts(purpose, values)), Action::Format(numbers))
    }
}

/// What a value that is gathered has to be. An item of a list and an
/// argument have to be values; a fragment of a command that is none is left
/// out; the bounds and the increment of a range have to be numbers.
pub open spec fn gathered(kind: GatheringView, v: Option<Value>) -> Result<
    Option<Value>,
    ErrorKind,
> {
    match kind {
        Gathering::Command => Ok(v),
        Gathering::Range => match v {
            Some(Value::Number(n)) => Ok(v),
            _ => Err(ErrorKind::Type),
        },
        _ => match v {
            Some(_) => Ok(v),
            None => Err(ErrorKind::Type),
        },
    }
}

/// The bindings in which the body of a function runs: a frame of the call,
/// with the parameters bound to the arguments, the first `upto` of them.
pub open spec fn bound(
    table: TableView,
    names: Seq<Seq<char>>,
    values: Seq<Value>,
    upto: nat,
) -> TableView
    decreases upto,
{
    if upto == 0 || upto > names.len() || upto > values.len() {
        table
    } else {
        bound(table, names, values, (upto - 1) as nat).assigned(names[upto - 1], values[upto - 1])
    }
}

/// A method is called on the value at a place, which is written back as the
/// method leaves it.
pub open spec fn call_at(
    m: Machine,
    place: Place,
    name: Seq<char>,
    args: Seq<Value>,
) -> Step {
    match method_call(place_value(m.table, place), name, args) {
        Err(kind) => fail(m, kind),
        Ok((after, result)) => go(
            m.with_table(place_written(m.table, place, after)).push(Some(or_nothing(result))),
        ),
    }
}

/// All values are gathered: the list is made, the range is made, the
/// function is entered, the method is called, the command is put together.
pub open spec fn finish(m: Machine, kind: GatheringView, values: Seq<Value>) -> Step {
    match kind {
        Gathering::List => go(m.push(Some(Value::List(values)))),
        Gathering::Range => if values.len() < 2 || !(values[0] is Number) || !(values[1]
            is Number) || (values.len() > 2 && !(values[2] is Number)) {
            fail(m, ErrorKind::Type)
        } else {
            let start = values[0]->Number_0.as_int();
            let end = values[1]->Number_0.as_int();
            let increment = if values.len() > 2 {
                values[2]->Number_0.as_int()
            } else {
                1i32
            };
            if increment == 0 {
                fail(m, ErrorKind::Bounds)
            } else {
                go(m.push(Some(Value::Range(Range { start, end, increment, ticker: start }))))
            }
        },
        Gathering::Command => speak(m, Purpose::Command, values),
        Gathering::Arguments(f) => if m.table.scopes.counter >= usize::MAX {
            fail(m, ErrorKind::Unsupported)
        } else {
            go(
                m.with_table(
                    bound(m.table.pushed(ScopeKind::FunctionBlock), f.args, values, f.args.len()),
                ).plan(Task::EndCall(m.values.len() as usize)).plan(Task::Eval(*f.body)),
            )
        },
        Gathering::Method(receiver, name) => match receiver {
            Node::Call { base, args } => go(
                m.plan(Task::MethodOnValue(name, values)).plan(Task::Eval(receiver)),
            ),
            _ => match place_of(m.table, receiver) {
                Err(kind) => fail(m, kind),
                Ok(place) => call_at(m, place, name, values),
            },
        },
    }
}

/// Nodes are to be evaluated one after the other and their values gathered.
pub open spec fn gather(m: Machine, kind: GatheringView, nodes: Seq<Node>) -> Step {
    if nodes.len() == 0 {
        finish(m, kind, Seq::empty())
    } else {
        go(m.plan(Task::Gather(kind, nodes, 1, Seq::empty())).plan(Task::Eval(nodes[0])))
    }
}

/// A frame of a kind is opened and a node is evaluated in it.
pub open spec fn enter(m: Machine, node: Node) -> Step {
    if m.table.scopes.counter >= usize::MAX {
        fail(m, ErrorKind::Unsupported)
    } else {
        go(
            m.with_table(m.table.pushed(ScopeKind::ConditionalBlock)).plan(Task::CloseScope).plan(
                Task::Eval(node),
            ),
        )
    }
}

/// A node is evaluated.
///
/// A literal is its value, but a decimal number, which is asked for. A name
/// is the value it is bound to. A function definition binds its name and has
/// no value, and so has an assignment. Every node with parts puts the work
/// on its parts on top.
pub open spec fn evaluate(m: Machine, node: Node) -> Step {
    match node {
        Node::Integer(n) => go(
            m.push(Some(Value::Number(Number { bits: Number::bits_of(n as nat) as u64 }))),
        ),
        Node::Decimal(text) => (m.plan(Task::AwaitNumber), Action::Parse(text)),
        Node::Boolean(b) => go(m.push(Some(Value::Boolean(b)))),
        Node::String(text) => go(m.push(Some(Value::String(text)))),
        Node::Nothing => go(m.push(Some(Value::Nothing))),
        Node::Identifier(name) => match m.table.lookup(name) {
            Some(v) => go(m.push(Some(v))),
            None => fail(m, ErrorKind::Name),
        },
        Node::Template(parts) => match template_values(m.table, parts, parts.len()) {
            Err(kind) => fail(m, kind),
            Ok(values) => speak(m, Purpose::Template, values),
        },
        Node::List(nodes) => gather(m, Gathering::List, nodes),
        Node::Range { start, end, increment } => gather(
            m,
            Gathering::Range,
            match increment {
                Some(i) => seq![*start, *end, *i],
                None => seq![*start, *end],
            },
        ),
        Node::Unary(e) => go(m.plan(Task::Negate).plan(Task::Eval(*e))),
        Node::Binary { left, operator, right } => go(
            m.plan(Task::BinaryRight(operator, *right)).plan(Task::Eval(*left)),
        ),
        Node::Variable { lhs, rhs } => go(m.plan(Task::Assign(*lhs)).plan(Task::Eval(*rhs))),
        Node::Member { base, property: name } => match *base {
            Node::Identifier(object) => match m.table.lookup(object) {
                None => fail(m, ErrorKind::Name),
                Some(Value::Object(entries)) => go(m.push(Some(property(entries, name)))),
                Some(_) => fail(m, ErrorKind::Type),
            },
            _ => fail(m, ErrorKind::Unsupported),
        },
        Node::Index { base, index } => go(m.plan(Task::IndexBase(*base)).plan(Task::Eval(*index))),
        Node::Function(f) => go(
            m.with_table(m.table.assigned(f.name, Value::Function(f))).push(None),
        ),
        Node::Call { base, args } => match *base {
            Node::Identifier(name) => match m.table.lookup(name) {
                None => fail(m, ErrorKind::Name),
                Some(Value::Function(f)) => if args.len() < f.args.len() {
                    fail(m, ErrorKind::Arity)
                } else {
                    gather(m, Gathering::Arguments(f), args)
                },
                Some(_) => go(m.push(Some(Value::Nothing))),
            },
            Node::Member { base: receiver, property: name } => gather(
                m,
                Gathering::Method(*receiver, name),
                args,
            ),
            _ => fail(m, ErrorKind::Unsupported),
        },
        Node::If { condition, consequence, alternative } => go(
            m.plan(
                Task::IfBranch(
                    *consequence,
                    match alternative {
                        Some(a) => Some(*a),
                        None => None,
                    },
                ),
            ).plan(Task::Eval(*condition)),
        ),
        Node::Block(body) => go(m.plan(Task::Block(body, 0))),
        Node::Return(e) => go(m.plan(Task::Eval(*e))),
        Node::For { variable, ranged, iterable, body } => go(
            m.plan(Task::ForStart(variable, *body)).plan(Task::Eval(*iterable)),
        ),
        Node::Command(parts) => gather(m, Gathering::Command, parts),
        Node::Program(_) => go(m.push(None)),
    }
}

/// The item that a loop takes next, and the place behind it.
pub open spec fn next_item(it: IterationView) -> Option<(Value, IterationView)> {
    match it {
        Iteration::Items(items, at) => if at < items.len() {
            Some((items[at as int], Iteration::Items(items, (at + 1) as usize)))
        } else {
            None
        },
        Iteration::Chars(text, at) => if at < text.len() {
            Some((char_value(text[at as int]), Iteration::Chars(text, (at + 1) as usize)))
        } else {
            None
        },
        Iteration::Range(r) => if r.has_next() {
            Some(
                (
                    Value::Number(Number { bits: Number::bits_of_int(r.ticker as int) as u64 }),
                    Iteration::Range(r.advanced()),
                ),
            )
        } else {
            None
        },
    }
}

/// The item of a value at an index, counted in items of a list and in
/// characters of a string.
pub open spec fn item_at(v: Value, index: usize) -> Result<Value, ErrorKind> {
    match v {
        Value::List(items) => if index < items.len() {
            Ok(items[index as int])
        } else {
            Err(ErrorKind::Bounds)
        },
        Value::String(text) => if index < text.len() {
            Ok(char_value(text[index as int]))
        } else {
            Err(ErrorKind::Bounds)
        },
        _ => Err(ErrorKind::Type),
    }
}

/// A value with the item at an index replaced: a list can be written into
/// within its bounds, a string cannot, and nothing else has items.
pub open spec fn with_item(v: Value, index: usize, item: Value) -> Result<Value, ErrorKind> {
    match v {
        Value::List(items) => if index < items.len() {
            Ok(Value::List(items.update(index as int, item)))
        } else {
            Err(ErrorKind::Bounds)
        },
        Value::String(_) => Err(ErrorKind::Unsupported),
        _ => Err(ErrorKind::Type),
    }
}

/// A piece of work is done, which has been taken off the stack. `m` is the
/// machine without it.
pub open spec fn perform(m: Machine, task: TaskView, reply: Option<ReplyView>) -> Step {
    match task {
        Task::AwaitNumber => match reply {
            Some(Reply::Number(n)) => go(m.push(Some(Value::Number(n)))),
            _ => fail(m, ErrorKind::Unsupported),
        },
        Task::AwaitTexts(purpose, values) => match reply {
            Some(Reply::Texts(texts)) => said(
                m,
                purpose,
                written_out(
                    values,
                    text_table(numbers_in_items(values, values.len()), texts),
                    values.len(),
                ),
            ),
            _ => fail(m, ErrorKind::Unsupported),
        },
        Task::AwaitOutput => match reply {
            Some(Reply::Output(text)) => go(m.push(Some(Value::String(text)))),
            _ => fail(m, ErrorKind::Unsupported),
        },
        _ => if reply is Some {
            fail(m, ErrorKind::Unsupported)
        } else {
            work(m, task)
        },
    }
}

/// A piece of work is done that waits for no reply.
pub open spec fn work(m: Machine, task: TaskView) -> Step {
    match task {
        Task::Eval(node) => evaluate(m, node),
        Task::Program(body, at) => if at >= body.len() {
            (Machine { results: Seq::empty(), ..m }, Action::Done(m.results))
        } else {
            go(
                m.plan(Task::Program(body, (at + 1) as usize)).plan(Task::Statement).plan(
                    Task::Eval(body[at as int]),
                ),
            )
        },
        Task::Block(body, at) => if at >= body.len() {
            go(m.push(Some(Value::Nothing)))
        } else {
            match body[at as int] {
                Node::Return(e) => go(m.plan(Task::Return).plan(Task::Eval(*e))),
                statement => go(
                    m.plan(Task::Block(body, (at + 1) as usize)).plan(Task::Discard).plan(
                        Task::Eval(statement),
                    ),
                ),
            }
        },
        Task::ForNext(variable, body, it) => match next_item(it) {
            Some((item, rest)) => go(
                m.with_table(m.table.assigned(variable, item)).plan(
                    Task::ForNext(variable, body, rest),
                ).plan(Task::Discard).plan(Task::Eval(body)),
            ),
            None => if !m.table.scopes.can_pop() {
                fail(m, ErrorKind::Unsupported)
            } else {
                go(m.with_table(m.table.popped()).push(None))
            },
        },
        _ => if m.values.len() == 0 {
            fail(m, ErrorKind::Unsupported)
        } else {
            apply(m.drop_value(), task, m.values.last())
        },
    }
}

/// A piece of work is done that takes the value on top. `m` is the machine
/// without that value.
pub open spec fn apply(m: Machine, task: TaskView, v: Option<Value>) -> Step {
    match task {
        Task::Statement => go(Machine { results: m.results.push(v), ..m }),
        Task::Discard => go(m),
        Task::Return => go(Machine { returning: Some(v), ..m }),
        Task::Negate => match v {
            Some(Value::Number(n)) => go(m.push(Some(Value::Number(n.negated())))),
            _ => go(m.push(None)),
        },
        Task::BinaryRight(operator, right) => match v {
            None => go(m.push(None)),
            Some(left) => if (operator is And && !truthy(left)) || (operator is Or && truthy(
                left,
            )) {
                go(m.push(v))
            } else {
                go(m.push(v).plan(Task::BinaryApply(operator)).plan(Task::Eval(right)))
            },
        },
        Task::BinaryApply(operator) => if m.values.len() == 0 {
            fail(m, ErrorKind::Unsupported)
        } else {
            let below = m.drop_value();
            match (m.values.last(), v) {
                (Some(left), Some(right)) => match binary(left, operator, right) {
                    Err(kind) => fail(m, kind),
                    Ok(Outcome::Value(value)) => go(below.push(Some(value))),
                    Ok(Outcome::Compute(c)) => (below.plan(Task::AwaitNumber), Action::Compute(c)),
                },
                _ => go(below.push(None)),
            }
        },
        Task::Assign(lhs) => match v {
            None => fail(m, ErrorKind::Type),
            Some(value) => match lhs {
                Node::Identifier(name) => go(
                    m.with_table(m.table.assigned(name, value)).push(None),
                ),
                Node::Index { base, index } => go(
                    m.push(v).plan(Task::AssignIndex(*base)).plan(Task::Eval(*index)),
                ),
                _ => fail(m, ErrorKind::Unsupported),
            },
        },
        Task::AssignIndex(base) => match v {
            Some(Value::Number(n)) => if m.values.len() == 0 || m.values.last() is None {
                fail(m, ErrorKind::Unsupported)
            } else {
                match place_of(m.table, base) {
                    Err(kind) => fail(m, kind),
                    Ok(place) => match with_item(
                        place_value(m.table, place),
                        n.as_index(),
                        m.values.last()->0,
                    ) {
                        Err(kind) => fail(m, kind),
                        Ok(after) => go(
                            m.drop_value().with_table(place_written(m.table, place, after)).push(
                                None,
                            ),
                        ),
                    },
                }
            },
            _ => fail(m, ErrorKind::Type),
        },
        Task::IndexBase(base) => match v {
            Some(Value::Number(n)) => go(
                m.plan(Task::IndexApply(n.as_index())).plan(Task::Eval(base)),
            ),
            _ => fail(m, ErrorKind::Type),
        },
        Task::IndexApply(index) => match v {
            None => fail(m, ErrorKind::Type),
            Some(value) => match item_at(value, index) {
                Err(kind) => fail(m, kind),
                Ok(item) => go(m.push(Some(item))),
            },
        },
        Task::Gather(kind, pending, at, done) => match gathered(kind, v) {
            Err(e) => fail(m, e),
            Ok(kept) => {
                let values = match kept {
                    Some(value) => done.push(value),
                    None => done,
                };
                if at < pending.len() {
                    go(
                        m.plan(Task::Gather(kind, pending, (at + 1) as usize, values)).plan(
                            Task::Eval(pending[at as int]),
                        ),
                    )
                } else {
                    finish(m, kind, values)
                }
            },
        },
        Task::MethodOnValue(name, args) => match v {
            None => fail(m, ErrorKind::Type),
            Some(receiver) => match method_call(receiver, name, args) {
                Err(kind) => fail(m, kind),
                Ok((_, result)) => go(m.push(Some(or_nothing(result)))),
            },
        },
        Task::EndCall(_) => if !m.table.scopes.can_pop() {
            fail(m, ErrorKind::Unsupported)
        } else {
            go(m.with_table(m.table.popped()).push(Some(or_nothing(v))))
        },
        Task::IfBranch(consequence, alternative) => if v is Some && truthy(v->0) {
            enter(m, consequence)
        } else {
            match alternative {
                Some(node) => enter(m, node),
                None => go(m.push(None)),
            }
        },
        Task::CloseScope => if !m.table.scopes.can_pop() {
            fail(m, ErrorKind::Unsupported)
        } else {
            go(m.with_table(m.table.popped()).push(None))
        },
        Task::ForStart(variable, body) => {
            let it: Option<IterationView> = match v {
                Some(Value::List(items)) => Some(Iteration::Items(items, 0)),
                Some(Value::String(text)) => Some(Iteration::Chars(text, 0)),
                Some(Value::Range(r)) => Some(Iteration::Range(r)),
                _ => None,
            };
            match it {
                None => fail(m, ErrorKind::Type),
                Some(it) => if m.table.scopes.counter >= usize::MAX {
                    fail(m, ErrorKind::Unsupported)
                } else {
                    go(
                        m.with_table(m.table.pushed(ScopeKind::ForBlock)).plan(
                            Task::ForNext(variable, body, it),
                        ),
                    )
                },
            }
        },
        _ => fail(m, ErrorKind::Unsupported),
    }
}

/// A value is being returned: the piece of work on top is left. The call
/// that the value is returned from ends with it; where there is none, the
/// statement of the program ends with it. A frame that is left is closed.
pub open spec fn unwind(m: Machine, task: TaskView, signal: Option<Value>) -> Step {
    match task {
        Task::EndCall(base) => if !m.table.scopes.can_pop() {
            fail(m, ErrorKind::Unsupported)
        } else {
            go(
                Machine {
                    table: m.table.popped(),
                    values: if base <= m.values.len() {
                        m.values.take(base as int)
                    } else {
                        m.values
                    }.push(Some(or_nothing(signal))),
                    returning: None,
                    ..m
                },
            )
        },
        Task::Statement => go(
            Machine {
                values: Seq::empty(),
                results: m.results.push(signal),
                returning: None,
                ..m
            },
        ),
        Task::CloseScope | Task::ForNext(_, _, _) => if !m.table.scopes.can_pop() {
            fail(m, ErrorKind::Unsupported)
        } else {
            go(m.with_table(m.table.popped()))
        },
        _ => go(m),
    }
}

/// One step of the evaluator: the piece of work on top of the stack is done,
/// with the reply to what the step before asked for, if it asked for
/// something. With nothing left to do the program has ended.
pub open spec fn step(m: Machine, reply: Option<ReplyView>) -> Step {
    if m.tasks.len() == 0 {
        (
            Machine { results: Seq::empty(), returning: None, ..m },
            Action::Done(m.results),
        )
    } else {
        let rest = Machine { tasks: m.tasks.drop_last(), ..m };
        match m.returning {
            Some(signal) => if reply is Some {
                fail(rest, ErrorKind::Unsupported)
            } else {
                unwind(rest, m.tasks.last(), signal)
            },
            None => perform(rest, m.tasks.last(), reply),
        }
    }
}

/// The machine that starts on a program: the bindings stay, and the
/// statements of the program are all that is to do.
pub open spec fn loaded(m: Machine, program: Node) -> Step {
    match program {
        Node::Program(body) => go(
            Machine {
                table: m.table,
                tasks: seq![Task::Program(body, 0)],
                values: Seq::empty(),
                results: Seq::empty(),
                returning: None,
            },
        ),
        _ => fail(m, ErrorKind::Type),
    }
}

/// The work that decides whether the right operand is needed.
pub open spec fn binary_right(operator: TokenType<Seq<char>>, right: Node) -> TaskView {
    Task::BinaryRight(operator, right)
}

/// Where the left operand of `&&` does not count as true, or that of `||`
/// does, the operand is the value of the expression and the right operand is
/// not evaluated: the step that decides leaves the left value on top and
/// plans no work on the right operand, nor any other.
pub proof fn law_short_circuit(
    m: Machine,
    operator: TokenType<Seq<char>>,
    right: Node,
    left: Value,
)
    requires
        m.returning is None,
        m.tasks.len() > 0,
        m.tasks.last() == binary_right(operator, right),
        m.values.len() > 0,
        m.values.last() == Some(left),
        (operator is And && !truthy(left)) || (operator is Or && truthy(left)),
    ensures
        step(m, None) == go(Machine { tasks: m.tasks.drop_last(), ..m }),
{
    let rest = Machine { tasks: m.tasks.drop_last(), ..m };
    assert(rest.drop_value().push(Some(left)).values =~= m.values);
}

} // verus!
