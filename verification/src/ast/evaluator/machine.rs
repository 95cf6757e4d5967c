use vstd::prelude::*;
use vstd::string::*;
use crate::ast::ast::{
    function_view,
    node_view,
    texts,
    view_all,
    ASTNode,
    FunctionStatement,
    FunctionView,
    Node,
};
use crate::error::{Error, ErrorKind};
use crate::lexer::token::TokenType;
use crate::symbol::number::Number;
use crate::symbol::operators::Computation;
use crate::symbol::symbol::{symbol_view, views, Range, Symbol, Value};
use crate::symbol::table::TableView;

verus! {

/// What values are gathered for, one after the other.
#[derive(Debug)]
pub enum Gathering<N = ASTNode, T = String, F = Box<FunctionStatement>> {
    /// The items of a list.
    List,
    /// The start, the end and the increment of a range.
    Range,
    /// The fragments of a command.
    Command,
    /// The arguments of a call of a function.
    Arguments(F),
    /// The arguments of a call of a method, by its receiver and its name.
    Method(N, T),
}

/// What a loop runs over, and how far it has come.
#[derive(Debug)]
pub enum Iteration<VS = Vec<Symbol>, T = String> {
    /// The items of a list, from a position on.
    Items(VS, usize),
    /// The characters of a string, from a position on.
    Chars(T, usize),
    /// A range, from its ticker on.
    Range(Range),
}

/// What a text is made for.
#[derive(Debug, Clone, Copy, PartialEq, Eq, Structural)]
pub enum Purpose {
    /// The value of a template string.
    Template,
    /// The line of a command.
    Command,
}

/// A piece of work that the evaluator has still to do. The pieces lie on a
/// stack, the next one on top; the values that finished pieces have left lie
/// on a stack of their own.
///
/// The type is generic in how nodes, texts and values are held, so that the
/// evaluator and its model share it.
#[derive(Debug)]
pub enum Task<
    N = ASTNode,
    T = String,
    NS = Vec<ASTNode>,
    VS = Vec<Symbol>,
    F = Box<FunctionStatement>,
> {
    /// Evaluate a node and leave its value.
    Eval(N),
    /// Take the value of a statement of the program as its result.
    Statement,
    /// Evaluate the statements of the program from a position on.
    Program(NS, usize),
    /// Negate the value on top.
    Negate,
    /// The left operand is on top: decide whether the right one is needed.
    BinaryRight(TokenType<T>, N),
    /// Both operands are on top: apply the operator.
    BinaryApply(TokenType<T>),
    /// Take the number that was asked for as a value.
    AwaitNumber,
    /// The value to assign is on top: assign it to the target.
    Assign(N),
    /// The index and the value to assign are on top: write the item of the
    /// base.
    AssignIndex(N),
    /// The index is on top: evaluate the base.
    IndexBase(N),
    /// The base is on top: read the item at the index.
    IndexApply(usize),
    /// A value that is gathered is on top: keep it and go on with the node
    /// at the position, or finish.
    Gather(Gathering<N, T, F>, NS, usize, VS),
    /// The receiver is on top: call the method on it.
    MethodOnValue(T, VS),
    /// The value of the body of a function is on top: end the call. The
    /// number is that of the values that lay on the stack when the call
    /// began.
    EndCall(usize),
    /// The condition is on top: take a branch.
    IfBranch(N, Option<N>),
    /// The value of a branch is on top: close its frame.
    CloseScope,
    /// Evaluate the statements of a block from a position on.
    Block(NS, usize),
    /// Drop the value on top.
    Discard,
    /// The value to return is on top: leave the blocks up to the call.
    Return,
    /// What a loop runs over is on top: open the frame of the loop.
    ForStart(T, N),
    /// Take the next item of a loop and run the body, or end the loop.
    ForNext(T, N, Iteration<VS, T>),
    /// Take the texts of the numbers that were asked for, and make the text.
    AwaitTexts(Purpose, VS),
    /// Take the output of the command that was asked for as a value.
    AwaitOutput,
}

/// The model of a piece of work.
pub type TaskView = Task<Node, Seq<char>, Seq<Node>, Seq<Value>, FunctionView>;

/// What comes back for what the evaluator asked for.
#[derive(Debug)]
pub enum Reply<TS = Vec<String>, T = String> {
    /// The number that a computation or a decimal literal gives.
    Number(Number),
    /// The texts of the numbers that were to be written out, in their order.
    Texts(TS),
    /// The output of a command.
    Output(T),
}

/// What the evaluator asks for when it has taken a step.
#[derive(Debug)]
pub enum Action<T = String, NS = Vec<Number>, R = Vec<Option<Symbol>>, E = Error> {
    /// Nothing: take the next step.
    Continue,
    /// The result of an operation on two numbers, as a `Reply::Number`.
    Compute(Computation),
    /// The number that a decimal literal writes, as a `Reply::Number`.
    Parse(T),
    /// The texts of numbers, as a `Reply::Texts`.
    Format(NS),
    /// The output of a command, as a `Reply::Output`.
    Run(T),
    /// Nothing more: the program has ended, with these results of its
    /// statements.
    Done(R),
    /// Nothing more: the program has failed.
    Failed(E),
}

/// The values of a run of optional symbols.
pub open spec fn option_views(values: Seq<Option<Symbol>>) -> Seq<Option<Value>> {
    Seq::new(
        values.len(),
        |i: int|
            match values[i] {
                Some(s) => Some(symbol_view(s)),
                None => None,
            },
    )
}

impl View for Gathering {
    type V = Gathering<Node, Seq<char>, FunctionView>;

    open spec fn view(&self) -> Gathering<Node, Seq<char>, FunctionView> {
        match self {
            Gathering::List => Gathering::List,
            Gathering::Range => Gathering::Range,
            Gathering::Command => Gathering::Command,
            Gathering::Arguments(f) => Gathering::Arguments(function_view(**f)),
            Gathering::Method(n, t) => Gathering::Method(node_view(*n), t@),
        }
    }
}

impl View for Iteration {
    type V = Iteration<Seq<Value>, Seq<char>>;

    open spec fn view(&self) -> Iteration<Seq<Value>, Seq<char>> {
        match self {
            Iteration::Items(items, at) => Iteration::Items(views(items@), *at),
            Iteration::Chars(text, at) => Iteration::Chars(text@, *at),
            Iteration::Range(r) => Iteration::Range(*r),
        }
    }
}

impl View for Task {
    type V = TaskView;

    open spec fn view(&self) -> TaskView {
        match self {
            Task::Eval(n) => Task::Eval(node_view(*n)),
            Task::Statement => Task::Statement,
            Task::Program(body, at) => Task::Program(view_all(body@), *at),
            Task::Negate => Task::Negate,
            Task::BinaryRight(op, n) => Task::BinaryRight(op@, node_view(*n)),
            Task::BinaryApply(op) => Task::BinaryApply(op@),
            Task::AwaitNumber => Task::AwaitNumber,
            Task::Assign(n) => Task::Assign(node_view(*n)),
            Task::AssignIndex(n) => Task::AssignIndex(node_view(*n)),
            Task::IndexBase(n) => Task::IndexBase(node_view(*n)),
            Task::IndexApply(i) => Task::IndexApply(*i),
            Task::Gather(kind, pending, at, done) => Task::Gather(
                kind@,
                view_all(pending@),
                *at,
                views(done@),
            ),
            Task::MethodOnValue(name, args) => Task::MethodOnValue(name@, views(args@)),
            Task::EndCall(base) => Task::EndCall(*base),
            Task::IfBranch(then, other) => Task::IfBranch(
                node_view(*then),
                match other {
                    Some(n) => Some(node_view(*n)),
                    None => None,
                },
            ),
            Task::CloseScope => Task::CloseScope,
            Task::Block(body, at) => Task::Block(view_all(body@), *at),
            Task::Discard => Task::Discard,
            Task::Return => Task::Return,
            Task::ForStart(name, body) => Task::ForStart(name@, node_view(*body)),
            Task::ForNext(name, body, it) => Task::ForNext(name@, node_view(*body), it@),
            Task::AwaitTexts(purpose, parts) => Task::AwaitTexts(*purpose, views(parts@)),
            Task::AwaitOutput => Task::AwaitOutput,
        }
    }
}

impl View for Reply {
    type V = Reply<Seq<Seq<char>>, Seq<char>>;

    open spec fn view(&self) -> Reply<Seq<Seq<char>>, Seq<char>> {
        match self {
            Reply::Number(n) => Reply::Number(*n),
            Reply::Texts(ts) => Reply::Texts(texts(ts@)),
            Reply::Output(t) => Reply::Output(t@),
        }
    }
}

/// The model of what the evaluator asks for.
pub type ActionView = Action<Seq<char>, Seq<Number>, Seq<Option<Value>>, ErrorKind>;

impl View for Action {
    type V = ActionView;

    open spec fn view(&self) -> ActionView {
        match self {
            Action::Continue => Action::Continue,
            Action::Compute(c) => Action::Compute(*c),
            Action::Parse(t) => Action::Parse(t@),
            Action::Format(ns) => Action::Format(ns@),
            Action::Run(t) => Action::Run(t@),
            Action::Done(r) => Action::Done(option_views(r@)),
            Action::Failed(e) => Action::Failed(e@),
        }
    }
}

/// The models of a run of pieces of work.
pub open spec fn task_views(tasks: Seq<Task>) -> Seq<TaskView> {
    Seq::new(tasks.len(), |i: int| tasks[i]@)
}

/// The model of an evaluator: the bindings, the work that is still to do,
/// the values that finished work has left, the results of the statements of
/// the program that have ended, and the value that is being returned while
/// the blocks up to the call are left.
pub struct Machine {
    pub table: TableView,
    pub tasks: Seq<TaskView>,
    pub values: Seq<Option<Value>>,
    pub results: Seq<Option<Value>>,
    pub returning: Option<Option<Value>>,
}

impl Machine {
    /// The machine with a value left on top.
    pub open spec fn push(self, v: Option<Value>) -> Machine {
        Machine { values: self.values.push(v), ..self }
    }

    /// The machine with a piece of work put on top.
    pub open spec fn plan(self, task: TaskView) -> Machine {
        Machine { tasks: self.tasks.push(task), ..self }
    }

    /// The machine with other bindings.
    pub open spec fn with_table(self, table: TableView) -> Machine {
        Machine { table, ..self }
    }

    /// The machine without the value on top.
    pub open spec fn drop_value(self) -> Machine {
        Machine { values: self.values.drop_last(), ..self }
    }

    /// The machine after a failure: nothing is left to do and no value is
    /// kept; the bindings stay as they are.
    pub open spec fn halted(self) -> Machine {
        Machine {
            table: self.table,
            tasks: Seq::empty(),
            values: Seq::empty(),
            results: Seq::empty(),
            returning: None,
        }
    }
}

/// What a step gives: the machine after it, and what is asked for.
pub type Step = (Machine, ActionView);

/// A step that asks for nothing.
pub open spec fn go(m: Machine) -> Step {
    (m, Action::Continue)
}

/// A step that fails.
pub open spec fn fail(m: Machine, kind: ErrorKind) -> Step {
    (m.halted(), Action::Failed(kind))
}

} // verus!
