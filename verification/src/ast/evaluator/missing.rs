use vstd::prelude::*;
use crate::ast::ast::{Node, TemplateToken};
use crate::ast::evaluator::machine::{
    fail,
    Action,
    ActionView,
    Gathering,
    Machine,
    Task,
    TaskView,
};
use crate::ast::evaluator::rules::{gathered, step, template_values, GatheringView, ReplyView};
use crate::error::ErrorKind;
use crate::symbol::object::entry_index;
use crate::symbol::symbol::Value;
use crate::symbol::table::TableView;

verus! {

/// What a failure says of a name that is not bound.
pub open spec fn not_defined(name: Seq<char>) -> Seq<char> {
    "name is not defined: "@ + name
}

/// What a failure says of a property that an object has not got.
pub open spec fn no_property(property: Seq<char>) -> Seq<char> {
    "object has no property "@ + property
}

/// Whether what a step gave is a failure that says a text. Where no text is
/// asked for, this holds of whatever the step gave.
pub open spec fn says(a: Action, text: Option<Seq<char>>) -> bool {
    match text {
        Some(text) => a matches Action::Failed(e) && e.message@ == text,
        None => true,
    }
}

/// What is said where a node is to name a place and a name is not found:
/// the variable is not bound, or its object has not got the property.
pub open spec fn missing_place(table: TableView, node: Node) -> Option<Seq<char>> {
    match node {
        Node::Identifier(name) => if table.lookup(name) is None {
            Some(not_defined(name))
        } else {
            None
        },
        Node::Member { base, property } => match *base {
            Node::Identifier(name) => match table.lookup(name) {
                None => Some(not_defined(name)),
                Some(Value::Object(entries)) => if entry_index(entries, property) is None {
                    Some(no_property(property))
                } else {
                    None
                },
                Some(_) => None,
            },
            _ => None,
        },
        _ => None,
    }
}

/// The first name among the first `upto` parts of a template string that is
/// not bound.
pub open spec fn missing_part(
    table: TableView,
    parts: Seq<TemplateToken<Seq<char>>>,
    upto: nat,
) -> Option<Seq<char>>
    decreases upto,
{
    if upto == 0 || upto > parts.len() {
        None
    } else {
        match missing_part(table, parts, (upto - 1) as nat) {
            Some(name) => Some(name),
            None => match parts[upto - 1] {
                TemplateToken::Expression(name) => if table.lookup(name) is None {
                    Some(name)
                } else {
                    None
                },
                TemplateToken::Literal(_) => None,
            },
        }
    }
}

/// What is said where all values are gathered and a name is not found: the
/// receiver of a method names no place.
pub open spec fn missing_receiver(m: Machine, kind: GatheringView) -> Option<Seq<char>> {
    match kind {
        Gathering::Method(receiver, _) => if receiver is Call {
            None
        } else {
            missing_place(m.table, receiver)
        },
        _ => None,
    }
}

/// What is said where a node is evaluated and a name is not found: the name
/// itself, the name of the object of a property, the name of the function
/// called, the receiver of a method without arguments, or a name in a
/// template string.
pub open spec fn missing_in(m: Machine, node: Node) -> Option<Seq<char>> {
    match node {
        Node::Identifier(name) => if m.table.lookup(name) is None {
            Some(not_defined(name))
        } else {
            None
        },
        Node::Template(parts) => match missing_part(m.table, parts, parts.len()) {
            Some(name) => Some(not_defined(name)),
            None => None,
        },
        Node::Member { base, property } => match *base {
            Node::Identifier(name) => if m.table.lookup(name) is None {
                Some(not_defined(name))
            } else {
                None
            },
            _ => None,
        },
        Node::Call { base, args } => match *base {
            Node::Identifier(name) => if m.table.lookup(name) is None {
                Some(not_defined(name))
            } else {
                None
            },
            Node::Member { base: receiver, property: name } => if args.len() == 0 {
                missing_receiver(m, Gathering::Method(*receiver, name))
            } else {
                None
            },
            _ => None,
        },
        _ => None,
    }
}

/// What is said where a piece of work takes the value on top and a name is
/// not found: an item is written below a name, or the last argument of a
/// method is there and its receiver is looked for.
pub open spec fn missing_for(m: Machine, task: TaskView, v: Option<Value>) -> Option<Seq<char>> {
    match task {
        Task::AssignIndex(base) => if v is Some && v->0 is Number && m.values.len() > 0
            && m.values.last() is Some {
            missing_place(m.table, base)
        } else {
            None
        },
        Task::Gather(kind, pending, at, _) => if gathered(kind, v) is Ok && at >= pending.len() {
            missing_receiver(m, kind)
        } else {
            None
        },
        _ => None,
    }
}

/// What is said where a piece of work is done and a name is not found.
pub open spec fn missing_at(m: Machine, task: TaskView) -> Option<Seq<char>> {
    match task {
        Task::Eval(node) => missing_in(m, node),
        Task::Program(_, _) | Task::Block(_, _) | Task::ForNext(_, _, _) => None,
        Task::AwaitNumber | Task::AwaitTexts(_, _) | Task::AwaitOutput => None,
        _ => if m.values.len() == 0 {
            None
        } else {
            missing_for(m.drop_value(), task, m.values.last())
        },
    }
}

/// What a step says that fails because a name is not found. A step that
/// takes a reply, or that hands a returned value on, looks for no name.
pub open spec fn missing(m: Machine, reply: Option<ReplyView>) -> Option<Seq<char>> {
    if m.tasks.len() == 0 || m.returning is Some || reply is Some {
        None
    } else {
        missing_at(Machine { tasks: m.tasks.drop_last(), ..m }, m.tasks.last())
    }
}

/// A template string with a name that is not bound has no values.
pub proof fn lemma_missing_part(
    table: TableView,
    parts: Seq<TemplateToken<Seq<char>>>,
    upto: nat,
)
    ensures
        missing_part(table, parts, upto) is Some <==> template_values(table, parts, upto) is Err,
        template_values(table, parts, upto) matches Err(kind) ==> kind == ErrorKind::Name,
    decreases upto,
{
    if !(upto == 0 || upto > parts.len()) {
        lemma_missing_part(table, parts, (upto - 1) as nat);
    }
}

/// The first name that is not bound stays the first, however far the
/// template string is read.
pub proof fn lemma_missing_part_stays(
    table: TableView,
    parts: Seq<TemplateToken<Seq<char>>>,
    at: nat,
    upto: nat,
)
    requires
        at <= upto <= parts.len(),
        missing_part(table, parts, at) is Some,
    ensures
        missing_part(table, parts, upto) == missing_part(table, parts, at),
    decreases upto - at,
{
    if at < upto {
        lemma_missing_part_stays(table, parts, at, (upto - 1) as nat);
    }
}

/// A step fails for want of a name only where it says which name: with the
/// contract of the step, every failure of that kind has its message fixed.
pub proof fn law_name_failure_is_named(m: Machine, reply: Option<ReplyView>)
    requires
        step(m, reply).1 == ActionView::Failed(ErrorKind::Name),
    ensures
        missing(m, reply) is Some,
{
    match m.tasks.last() {
        Task::Eval(Node::Template(parts)) => {
            lemma_missing_part(m.table, parts, parts.len());
        },
        _ => {},
    }
}

/// A step that says that a name was not found fails, and with a failure of
/// that kind; nothing is left to do after it, and the bindings stay.
pub proof fn law_missing_name_fails(m: Machine, reply: Option<ReplyView>)
    requires
        missing(m, reply) is Some,
    ensures
        step(m, reply) == fail(m, ErrorKind::Name),
{
    let rest = Machine { tasks: m.tasks.drop_last(), ..m };
    let task = m.tasks.last();
    match task {
        Task::Eval(Node::Template(parts)) => {
            lemma_missing_part(m.table, parts, parts.len());
        },
        _ => {},
    }
    assert(rest.halted() == m.halted());
    assert(rest.drop_value().halted() == m.halted());
}

} // verus!
