use vstd::prelude::*;
use vstd::string::*;
use crate::ast::ast::{node_view, view_all, ASTNode, Iterable, Node, NumberLiteral};
use crate::ast::evaluator::machine::{Action, Gathering, Purpose, Task};
use crate::ast::evaluator::missing::{missing_in, says};
use crate::ast::evaluator::rules::evaluate;
use crate::ast::evaluator::ASTEvaluator;
use crate::error::{Error, ErrorKind};
use crate::symbol::number::Number;
use crate::symbol::symbol::{StringSymbol, Symbol, Value};

verus! {

impl ASTEvaluator {
    /// The value of a name.
    fn read(&mut self, name: String) -> (a: Action)
        requires
            old(self).wf(),
        ensures
            final(self).wf(),
            (final(self)@, a@) == evaluate(old(self)@, Node::Identifier(name@)),
            says(a, missing_in(old(self)@, Node::Identifier(name@))),
    {
        match self.symbol_table.get(name.as_str()) {
            Some(symbol) => {
                let value = symbol.clone();
                self.leave(Some(value));
                Action::Continue
            },
            None => self.fail(
                Error::with_detail(ErrorKind::Name, "name is not defined: ", name.as_str()),
            ),
        }
    }

    /// The value of a property of the object under a name.
    fn read_member(&mut self, base: ASTNode, property: String) -> (a: Action)
        requires
            old(self).wf(),
        ensures
            final(self).wf(),
            (final(self)@, a@) == evaluate(
                old(self)@,
                Node::Member { base: Box::new(base@), property: property@ },
            ),
            says(
                a,
                missing_in(old(self)@, Node::Member { base: Box::new(base@), property: property@ }),
            ),
    {
        match base {
            ASTNode::Identifier(name) => match self.symbol_table.get(name.as_str()) {
                None => self.fail(
                    Error::with_detail(ErrorKind::Name, "name is not defined: ", name.as_str()),
                ),
                Some(Symbol::Object(object)) => {
                    let value = object.get(property.as_str());
                    self.leave(Some(value));
                    Action::Continue
                },
                Some(_) => self.fail(
                    Error::with_detail(ErrorKind::Type, "value has no property ", property.as_str()),
                ),
            },
            _ => self.fail_with(ErrorKind::Unsupported, "object not supported"),
        }
    }

    /// A call: of a function by its name, or of a method on a receiver.
    fn call(&mut self, base: ASTNode, args: Vec<ASTNode>) -> (a: Action)
        requires
            old(self).wf(),
        ensures
            final(self).wf(),
            (final(self)@, a@) == evaluate(
                old(self)@,
                Node::Call { base: Box::new(base@), args: view_all(args@) },
            ),
            says(
                a,
                missing_in(old(self)@, Node::Call { base: Box::new(base@), args: view_all(args@) }),
            ),
    {
        match base {
            ASTNode::Identifier(name) => match self.symbol_table.get(name.as_str()) {
                None => self.fail(
                    Error::with_detail(ErrorKind::Name, "name is not defined: ", name.as_str()),
                ),
                Some(Symbol::Function(f)) => {
                    if args.len() < f.args.len() {
                        self.fail(
                            Error::with_detail(
                                ErrorKind::Arity,
                                "missing function args: ",
                                f.name.as_str(),
                            ),
                        )
                    } else {
                        let function = Box::new((&**f).clone());
                        self.gather(Gathering::Arguments(function), args)
                    }
                },
                Some(_) => {
                    self.leave(Some(Symbol::Nothing));
                    Action::Continue
                },
            },
            ASTNode::MemberExpression(member) => self.gather(
                Gathering::Method(*member.base, member.property),
                args,
            ),
            _ => self.fail_with(ErrorKind::Unsupported, "object is not callable"),
        }
    }

    /// A node is evaluated.
    pub(crate) fn evaluate(&mut self, node: ASTNode) -> (a: Action)
        requires
            old(self).wf(),
        ensures
            final(self).wf(),
            (final(self)@, a@) == evaluate(old(self)@, node@),
            says(a, missing_in(old(self)@, node@)),
    {
        match node {
            ASTNode::Number(NumberLiteral::Integer(n)) => {
                self.leave(Some(Symbol::Number(Number::from_usize(n))));
                Action::Continue
            },
            ASTNode::Number(NumberLiteral::Decimal(text)) => {
                self.plan(Task::AwaitNumber);
                Action::Parse(text)
            },
            ASTNode::Boolean(b) => {
                self.leave(Some(Symbol::Boolean(b)));
                Action::Continue
            },
            ASTNode::String(text) => {
                self.leave(Some(Symbol::String(StringSymbol::new(text))));
                Action::Continue
            },
            ASTNode::Nothing => {
                self.leave(Some(Symbol::Nothing));
                Action::Continue
            },
            ASTNode::Identifier(name) => self.read(name),
            ASTNode::TemplateString(template) => match self.template_values(&template.tokens) {
                Err(e) => self.fail(e),
                Ok(values) => self.speak(Purpose::Template, values),
            },
            ASTNode::List(nodes) => self.gather(Gathering::List, *nodes),
            ASTNode::RangeExpression(range) => {
                let mut nodes: Vec<ASTNode> = Vec::new();
                let ghost start = node_view(*range.start);
                let ghost end = node_view(*range.end);
                nodes.push(*range.start);
                nodes.push(*range.end);
                match range.increment {
                    Some(increment) => {
                        let ghost step = node_view(*increment);
                        nodes.push(*increment);
                        proof {
                            assert(view_all(nodes@) =~= seq![start, end, step]);
                        }
                    },
                    None => {
                        proof {
                            assert(view_all(nodes@) =~= seq![start, end]);
                        }
                    },
                }
                self.gather(Gathering::Range, nodes)
            },
            ASTNode::UnaryExpression(e) => {
                self.plan(Task::Negate);
                self.plan(Task::Eval(*e));
                Action::Continue
            },
            ASTNode::BinaryExpression(binary) => {
                self.plan(Task::BinaryRight(binary.operator, *binary.right));
                self.plan(Task::Eval(*binary.left));
                Action::Continue
            },
            ASTNode::VariableExpression(variable) => {
                self.plan(Task::Assign(*variable.lhs));
                self.plan(Task::Eval(*variable.rhs));
                Action::Continue
            },
            ASTNode::MemberExpression(member) => self.read_member(*member.base, member.property),
            ASTNode::IndexExpression(index) => {
                self.plan(Task::IndexBase(*index.base));
                self.plan(Task::Eval(*index.index));
                Action::Continue
            },
            ASTNode::FunctionStatement(f) => {
                let name = f.name.clone();
                self.symbol_table.set(name.as_str(), Symbol::Function(Box::new(f)));
                self.leave(None);
                Action::Continue
            },
            ASTNode::CallExpression(call) => self.call(*call.base, call.args),
            ASTNode::IfStatement(branch) => {
                let alternative = match branch.alternative {
                    Some(node) => Some(*node),
                    None => None,
                };
                self.plan(Task::IfBranch(*branch.consequence, alternative));
                self.plan(Task::Eval(*branch.condition));
                Action::Continue
            },
            ASTNode::BlockStatement(block) => {
                self.plan(Task::Block(*block.body, 0));
                Action::Continue
            },
            ASTNode::ReturnStatement(e) => {
                self.plan(Task::Eval(*e));
                Action::Continue
            },
            ASTNode::ForStatement(statement) => {
                let iterable = match *statement.iterable {
                    Iterable::RangeExpression(range) => ASTNode::RangeExpression(range),
                    Iterable::Collection(e) => e,
                };
                self.plan(Task::ForStart(statement.variable, *statement.body));
                self.plan(Task::Eval(iterable));
                Action::Continue
            },
            ASTNode::Command(parts) => self.gather(Gathering::Command, *parts),
            ASTNode::Program(_) => {
                self.leave(None);
                Action::Continue
            },
        }
    }
}

} // verus!
