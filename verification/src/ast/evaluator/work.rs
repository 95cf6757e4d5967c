use vstd::prelude::*;
use vstd::string::*;
use crate::ast::ast::{lemma_return_node, node_view, view_all, ASTNode, Node};
use crate::ast::evaluator::machine::{
    fail,
    go,
    option_views,
    task_views,
    Action,
    Gathering,
    Iteration,
    Machine,
    Purpose,
    Reply,
    Task,
};
use crate::ast::evaluator::rules::{
    apply,
    enter,
    item_at,
    next_item,
    perform,
    step,
    unwind,
    work,
    IterationView,
};
use crate::ast::evaluator::missing::{missing, missing_at, missing_for, says};
use crate::ast::evaluator::{optional, reply_view, ASTEvaluator};
use crate::error::{Error, ErrorKind};
use crate::lexer::token::TokenType;
use crate::symbol::number::Number;
use crate::symbol::operators::{eval_binary_expression, Outcome};
use crate::symbol::scope::ScopeKind;
use crate::symbol::string::char_symbol;
use crate::symbol::symbol::{views, StringSymbol, Symbol, Value};

verus! {

/// The item that a loop takes next.
pub fn advance(it: Iteration) -> (r: Option<(Symbol, Iteration)>)
    ensures
        match next_item(it@) {
            Some((item, rest)) => match r {
                Some((symbol, place)) => symbol@ == item && place@ == rest,
                None => false,
            },
            None => r is None,
        },
{
    match it {
        Iteration::Items(items, at) => {
            if at < items.len() {
                let item = items[at].clone();
                Some((item, Iteration::Items(items, at + 1)))
            } else {
                None
            }
        },
        Iteration::Chars(text, at) => {
            if at < text.as_str().unicode_len() {
                let item = char_symbol(text.as_str().get_char(at));
                Some((item, Iteration::Chars(text, at + 1)))
            } else {
                None
            }
        },
        Iteration::Range(range) => {
            let mut range = range;
            match range.next() {
                Some(item) => Some((item, Iteration::Range(range))),
                None => None,
            }
        },
    }
}

impl ASTEvaluator {
    /// A frame is opened and a node is evaluated in it.
    fn enter(&mut self, node: ASTNode) -> (a: Action)
        requires
            old(self).wf(),
        ensures
            final(self).wf(),
            (final(self)@, a@) == enter(old(self)@, node@),
    {
        if !self.symbol_table.can_push() {
            return self.fail_with(ErrorKind::Unsupported, "too many frames");
        }
        self.symbol_table.push_scope(ScopeKind::ConditionalBlock);
        self.plan(Task::CloseScope);
        self.plan(Task::Eval(node));
        Action::Continue
    }

    /// The innermost frame is closed and a value is left.
    fn leave_frame(&mut self, v: Option<Symbol>) -> (a: Action)
        requires
            old(self).wf(),
        ensures
            final(self).wf(),
            (final(self)@, a@) == if !old(self)@.table.scopes.can_pop() {
                fail(old(self)@, ErrorKind::Unsupported)
            } else {
                go(old(self)@.with_table(old(self)@.table.popped()).push(optional(v)))
            },
    {
        if !self.symbol_table.can_pop() {
            return self.fail_with(ErrorKind::Unsupported, "no frame to close");
        }
        self.symbol_table.pop_scope();
        self.leave(v);
        Action::Continue
    }

    /// Both operands are there: the operator is applied.
    fn apply_binary(&mut self, operator: TokenType, right: Option<Symbol>) -> (a: Action)
        requires
            old(self).wf(),
        ensures
            final(self).wf(),
            (final(self)@, a@) == apply(old(self)@, Task::BinaryApply(operator@), optional(right)),
    {
        let left = match self.take() {
            Some(left) => left,
            None => return self.fail_with(ErrorKind::Unsupported, "operand is missing"),
        };
        match left {
            Some(left) => match right {
                Some(right) => match eval_binary_expression(&left, &operator, &right) {
                    Err(e) => self.fail(e),
                    Ok(Outcome::Value(value)) => {
                        self.leave(Some(value));
                        Action::Continue
                    },
                    Ok(Outcome::Compute(c)) => {
                        self.plan(Task::AwaitNumber);
                        Action::Compute(c)
                    },
                },
                None => {
                    self.leave(None);
                    Action::Continue
                },
            },
            None => {
                self.leave(None);
                Action::Continue
            },
        }
    }

    /// The index and the value to assign are there: the item is written.
    fn assign_index(&mut self, base: ASTNode, index: Option<Symbol>) -> (a: Action)
        requires
            old(self).wf(),
        ensures
            final(self).wf(),
            (final(self)@, a@) == apply(old(self)@, Task::AssignIndex(base@), optional(index)),
            says(a, missing_for(old(self)@, Task::AssignIndex(base@), optional(index))),
    {
        let at = match index {
            Some(Symbol::Number(n)) => n.to_index(),
            _ => return self.fail_with(ErrorKind::Type, "indices must be numbers"),
        };
        let ghost before = self@;
        let value = match self.take() {
            Some(Some(value)) => value,
            _ => return self.fail_with(ErrorKind::Unsupported, "value to assign is missing"),
        };
        match self.place_of(&base) {
            Err(e) => self.fail(e),
            Ok(place) => self.write_item(&place, at, value),
        }
    }

    /// The base is there: the item at the index is read.
    fn read_item(&mut self, index: usize, base: Option<Symbol>) -> (a: Action)
        requires
            old(self).wf(),
        ensures
            final(self).wf(),
            (final(self)@, a@) == apply(old(self)@, Task::IndexApply(index), optional(base)),
    {
        match base {
            None => self.fail_with(ErrorKind::Type, "value is not indexable"),
            Some(Symbol::List(list)) => match list.get(index) {
                Ok(item) => {
                    let item = item.clone();
                    self.leave(Some(item));
                    Action::Continue
                },
                Err(e) => self.fail(e),
            },
            Some(Symbol::String(text)) => match text.get(index) {
                Ok(item) => {
                    self.leave(Some(item));
                    Action::Continue
                },
                Err(e) => self.fail(e),
            },
            Some(_) => self.fail_with(ErrorKind::Type, "value is not indexable"),
        }
    }

    /// What a loop runs over is there: the frame of the loop is opened.
    fn start_loop(&mut self, variable: String, body: ASTNode, over: Option<Symbol>) -> (a: Action)
        requires
            old(self).wf(),
        ensures
            final(self).wf(),
            (final(self)@, a@) == apply(
                old(self)@,
                Task::ForStart(variable@, body@),
                optional(over),
            ),
    {
        let it = match over {
            Some(Symbol::List(list)) => Iteration::Items(list.items, 0),
            Some(Symbol::String(text)) => Iteration::Chars(text.value, 0),
            Some(Symbol::Range(range)) => Iteration::Range(range),
            _ => return self.fail_with(ErrorKind::Type, "value is not iterable"),
        };
        if !self.symbol_table.can_push() {
            return self.fail_with(ErrorKind::Unsupported, "too many frames");
        }
        self.symbol_table.push_scope(ScopeKind::ForBlock);
        self.plan(Task::ForNext(variable, body, it));
        Action::Continue
    }

    /// A piece of work is done that takes the value on top.
    fn apply(&mut self, task: Task, v: Option<Symbol>) -> (a: Action)
        requires
            old(self).wf(),
        ensures
            final(self).wf(),
            (final(self)@, a@) == apply(old(self)@, task@, optional(v)),
            says(a, missing_for(old(self)@, task@, optional(v))),
    {
        match task {
            Task::Statement => {
                self.results.push(v);
                proof {
                    assert(option_views(self.results@) =~= option_views(old(self).results@).push(
                        optional(v),
                    ));
                }
                Action::Continue
            },
            Task::Discard => Action::Continue,
            Task::Return => {
                self.returning = Some(v);
                Action::Continue
            },
            Task::Negate => {
                match v {
                    Some(Symbol::Number(n)) => self.leave(Some(Symbol::Number(n.negate()))),
                    _ => self.leave(None),
                }
                Action::Continue
            },
            Task::BinaryRight(operator, right) => match v {
                None => {
                    self.leave(None);
                    Action::Continue
                },
                Some(left) => {
                    let truthy = left.is_truthy();
                    let decided = (matches!(operator, TokenType::And) && !truthy) || (matches!(
                        operator,
                        TokenType::Or
                    ) && truthy);
                    self.leave(Some(left));
                    if !decided {
                        self.plan(Task::BinaryApply(operator));
                        self.plan(Task::Eval(right));
                    }
                    Action::Continue
                },
            },
            Task::BinaryApply(operator) => self.apply_binary(operator, v),
            Task::Assign(lhs) => match v {
                None => self.fail_with(ErrorKind::Type, "right hand side not found"),
                Some(value) => match lhs {
                    ASTNode::Identifier(name) => {
                        self.symbol_table.set(name.as_str(), value);
                        self.leave(None);
                        Action::Continue
                    },
                    ASTNode::IndexExpression(target) => {
                        self.leave(Some(value));
                        self.plan(Task::AssignIndex(*target.base));
                        self.plan(Task::Eval(*target.index));
                        Action::Continue
                    },
                    _ => self.fail_with(ErrorKind::Unsupported, "object assignment"),
                },
            },
            Task::AssignIndex(base) => self.assign_index(base, v),
            Task::IndexBase(base) => match v {
                Some(Symbol::Number(n)) => {
                    self.plan(Task::IndexApply(n.to_index()));
                    self.plan(Task::Eval(base));
                    Action::Continue
                },
                _ => self.fail_with(ErrorKind::Type, "indices must be numbers"),
            },
            Task::IndexApply(index) => self.read_item(index, v),
            Task::Gather(kind, pending, at, done) => self.gathered(kind, pending, at, done, v),
            Task::MethodOnValue(name, args) => match v {
                None => self.fail_with(ErrorKind::Type, "value has no member"),
                Some(receiver) => {
                    let mut receiver = receiver;
                    match receiver.call(name.as_str(), args) {
                        Err(e) => self.fail(e),
                        Ok(result) => {
                            let value = match result {
                                Some(value) => value,
                                None => Symbol::Nothing,
                            };
                            self.leave(Some(value));
                            Action::Continue
                        },
                    }
                },
            },
            Task::EndCall(_) => {
                let value = match v {
                    Some(value) => value,
                    None => Symbol::Nothing,
                };
                self.leave_frame(Some(value))
            },
            Task::IfBranch(consequence, alternative) => {
                let passed = match &v {
                    Some(value) => value.is_truthy(),
                    None => false,
                };
                if passed {
                    self.enter(consequence)
                } else {
                    match alternative {
                        Some(node) => self.enter(node),
                        None => {
                            self.leave(None);
                            Action::Continue
                        },
                    }
                }
            },
            Task::CloseScope => self.leave_frame(None),
            Task::ForStart(variable, body) => self.start_loop(variable, body, v),
            _ => self.fail_with(ErrorKind::Unsupported, "work takes no value"),
        }
    }

    /// A piece of work is done that waits for no reply.
    fn work(&mut self, task: Task) -> (a: Action)
        requires
            old(self).wf(),
        ensures
            final(self).wf(),
            (final(self)@, a@) == work(old(self)@, task@),
            says(a, missing_at(old(self)@, task@)),
    {
        match task {
            Task::Eval(node) => self.evaluate(node),
            Task::Program(body, at) => {
                if at >= body.len() {
                    let mut results: Vec<Option<Symbol>> = Vec::new();
                    core::mem::swap(&mut results, &mut self.results);
                    proof {
                        assert(option_views(self.results@) =~= Seq::empty());
                    }
                    Action::Done(results)
                } else {
                    let statement = body[at].clone();
                    self.plan(Task::Program(body, at + 1));
                    self.plan(Task::Statement);
                    self.plan(Task::Eval(statement));
                    Action::Continue
                }
            },
            Task::Block(body, at) => {
                if at >= body.len() {
                    self.leave(Some(Symbol::Nothing));
                    Action::Continue
                } else {
                    let statement = body[at].clone();
                    proof {
                        lemma_return_node(statement);
                    }
                    match statement {
                        ASTNode::ReturnStatement(e) => {
                            self.plan(Task::Return);
                            self.plan(Task::Eval(*e));
                            Action::Continue
                        },
                        statement => {
                            self.plan(Task::Block(body, at + 1));
                            self.plan(Task::Discard);
                            self.plan(Task::Eval(statement));
                            Action::Continue
                        },
                    }
                }
            },
            Task::ForNext(variable, body, it) => match advance(it) {
                Some((item, rest)) => {
                    self.symbol_table.set(variable.as_str(), item);
                    let again = body.clone();
                    self.plan(Task::ForNext(variable, body, rest));
                    self.plan(Task::Discard);
                    self.plan(Task::Eval(again));
                    Action::Continue
                },
                None => self.leave_frame(None),
            },
            task => match self.take() {
                None => self.fail_with(ErrorKind::Unsupported, "value is missing"),
                Some(v) => self.apply(task, v),
            },
        }
    }

    /// A piece of work is done, which has been taken off the stack.
    fn perform(&mut self, task: Task, reply: Option<Reply>) -> (a: Action)
        requires
            old(self).wf(),
        ensures
            final(self).wf(),
            (final(self)@, a@) == perform(old(self)@, task@, reply_view(reply)),
            reply is None ==> says(a, missing_at(old(self)@, task@)),
    {
        match task {
            Task::AwaitNumber => match reply {
                Some(Reply::Number(n)) => {
                    self.leave(Some(Symbol::Number(n)));
                    Action::Continue
                },
                _ => self.fail_with(ErrorKind::Unsupported, "a number was asked for"),
            },
            Task::AwaitTexts(purpose, values) => match reply {
                Some(Reply::Texts(texts)) => self.spoken(purpose, values, texts),
                _ => self.fail_with(ErrorKind::Unsupported, "texts were asked for"),
            },
            Task::AwaitOutput => match reply {
                Some(Reply::Output(text)) => {
                    self.leave(Some(Symbol::String(StringSymbol::new(text))));
                    Action::Continue
                },
                _ => self.fail_with(ErrorKind::Unsupported, "output was asked for"),
            },
            task => match reply {
                Some(_) => self.fail_with(ErrorKind::Unsupported, "nothing was asked for"),
                None => self.work(task),
            },
        }
    }

    /// A value is being returned: the piece of work on top is left.
    fn unwind(&mut self, task: Task, signal: Option<Symbol>) -> (a: Action)
        requires
            old(self).wf(),
        ensures
            final(self).wf(),
            (final(self)@, a@) == unwind(
                Machine { returning: Some(optional(signal)), ..old(self)@ },
                task@,
                optional(signal),
            ),
    {
        match task {
            Task::EndCall(base) => {
                if !self.symbol_table.can_pop() {
                    return self.fail_with(ErrorKind::Unsupported, "no frame to close");
                }
                self.symbol_table.pop_scope();
                if base <= self.values.len() {
                    self.values.truncate(base);
                    proof {
                        assert(option_views(self.values@) =~= option_views(old(self).values@).take(
                            base as int,
                        ));
                    }
                }
                let value = match signal {
                    Some(value) => value,
                    None => Symbol::Nothing,
                };
                self.leave(Some(value));
                self.returning = None;
                Action::Continue
            },
            Task::Statement => {
                self.values = Vec::new();
                self.results.push(signal);
                self.returning = None;
                proof {
                    assert(option_views(self.values@) =~= Seq::empty());
                    assert(option_views(self.results@) =~= option_views(old(self).results@).push(
                        optional(signal),
                    ));
                }
                Action::Continue
            },
            Task::CloseScope | Task::ForNext(_, _, _) => {
                if !self.symbol_table.can_pop() {
                    return self.fail_with(ErrorKind::Unsupported, "no frame to close");
                }
                self.symbol_table.pop_scope();
                self.returning = Some(signal);
                Action::Continue
            },
            _ => {
                self.returning = Some(signal);
                Action::Continue
            },
        }
    }

    /// Takes one step: the piece of work on top is done, with the reply to
    /// what the step before asked for, if it asked for something. The caller
    /// does what the step asks for and hands the reply to the next step;
    /// after `Continue` it hands nothing. `Done` and `Failed` end the
    /// program.
    pub fn step(&mut self, reply: Option<Reply>) -> (a: Action)
        requires
            old(self).wf(),
        ensures
            final(self).wf(),
            (final(self)@, a@) == step(old(self)@, reply_view(reply)),
            says(a, missing(old(self)@, reply_view(reply))),
    {
        let task = match self.tasks.pop() {
            Some(task) => task,
            None => {
                let mut results: Vec<Option<Symbol>> = Vec::new();
                core::mem::swap(&mut results, &mut self.results);
                self.returning = None;
                proof {
                    assert(option_views(self.results@) =~= Seq::empty());
                }
                return Action::Done(results);
            },
        };
        proof {
            assert(task_views(self.tasks@) =~= task_views(old(self).tasks@).drop_last());
        }
        let mut returning: Option<Option<Symbol>> = None;
        core::mem::swap(&mut returning, &mut self.returning);
        match returning {
            Some(signal) => {
                if reply.is_some() {
                    return self.fail_with(ErrorKind::Unsupported, "nothing was asked for");
                }
                self.unwind(task, signal)
            },
            None => self.perform(task, reply),
        }
    }
}

} // verus!
