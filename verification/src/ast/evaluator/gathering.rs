use vstd::prelude::*;
use vstd::string::*;
use crate::ast::ast::{function_view, node_view, texts, view_all, ASTNode, FunctionStatement, Node};
use crate::ast::evaluator::machine::{fail, go, Action, Gathering, Purpose, Task};
use crate::ast::evaluator::missing::{missing_for, missing_receiver, says};
use crate::ast::evaluator::optional;
use crate::ast::evaluator::rules::{apply, bound, finish, gather, gathered, GatheringView};
use crate::ast::evaluator::ASTEvaluator;
use crate::error::{Error, ErrorKind};
use crate::symbol::scope::ScopeKind;
use crate::symbol::symbol::{views, List, Range, Symbol, Value};
use crate::symbol::table::lemma_pushed_wf;

verus! {

/// What a value that is gathered has to be.
pub fn keep(kind: &Gathering, v: Option<Symbol>) -> (r: Result<Option<Symbol>, Error>)
    ensures
        match gathered(kind@, optional(v)) {
            Ok(kept) => r is Ok && optional(r->Ok_0) == kept,
            Err(e) => r is Err && r->Err_0@ == e,
        },
{
    match kind {
        Gathering::Command => Ok(v),
        Gathering::Range => match v {
            Some(Symbol::Number(n)) => Ok(Some(Symbol::Number(n))),
            _ => Err(Error::new(ErrorKind::Type, "range bounds must be numbers")),
        },
        _ => match v {
            Some(s) => Ok(Some(s)),
            None => Err(Error::new(ErrorKind::Type, "expression has no value")),
        },
    }
}

impl ASTEvaluator {
    /// Nodes are to be evaluated one after the other and their values
    /// gathered.
    pub(crate) fn gather(&mut self, kind: Gathering, nodes: Vec<ASTNode>) -> (a: Action)
        requires
            old(self).wf(),
        ensures
            final(self).wf(),
            (final(self)@, a@) == gather(old(self)@, kind@, view_all(nodes@)),
            nodes@.len() == 0 ==> says(a, missing_receiver(old(self)@, kind@)),
    {
        if nodes.len() == 0 {
            let values: Vec<Symbol> = Vec::new();
            proof {
                assert(views(values@) =~= Seq::empty());
            }
            self.finish(kind, values)
        } else {
            let first = nodes[0].clone();
            let done: Vec<Symbol> = Vec::new();
            proof {
                assert(views(done@) =~= Seq::empty());
            }
            self.plan(Task::Gather(kind, nodes, 1, done));
            self.plan(Task::Eval(first));
            Action::Continue
        }
    }

    /// A value that is gathered has come: it is kept, and the next node is
    /// taken up, or the gathering is finished.
    pub(crate) fn gathered(
        &mut self,
        kind: Gathering,
        pending: Vec<ASTNode>,
        at: usize,
        done: Vec<Symbol>,
        v: Option<Symbol>,
    ) -> (a: Action)
        requires
            old(self).wf(),
        ensures
            final(self).wf(),
            (final(self)@, a@) == apply(
                old(self)@,
                Task::Gather(kind@, view_all(pending@), at, views(done@)),
                optional(v),
            ),
            says(
                a,
                missing_for(
                    old(self)@,
                    Task::Gather(kind@, view_all(pending@), at, views(done@)),
                    optional(v),
                ),
            ),
    {
        let ghost before = views(done@);
        let mut done = done;
        match keep(&kind, v) {
            Err(e) => self.fail(e),
            Ok(kept) => {
                match kept {
                    Some(value) => {
                        let ghost view = value@;
                        done.push(value);
                        proof {
                            assert(views(done@) =~= before.push(view));
                        }
                    },
                    None => {},
                }
                if at < pending.len() {
                    let next = pending[at].clone();
                    self.plan(Task::Gather(kind, pending, at + 1, done));
                    self.plan(Task::Eval(next));
                    Action::Continue
                } else {
                    self.finish(kind, done)
                }
            },
        }
    }

    /// The body of a function is entered: a frame is opened, the parameters
    /// are bound to the arguments, and the body is evaluated.
    fn enter_function(&mut self, f: Box<FunctionStatement>, values: Vec<Symbol>) -> (a: Action)
        requires
            old(self).wf(),
        ensures
            final(self).wf(),
            (final(self)@, a@) == finish(
                old(self)@,
                Gathering::Arguments(function_view(*f)),
                views(values@),
            ),
    {
        if !self.symbol_table.can_push() {
            return self.fail_with(ErrorKind::Unsupported, "too many frames");
        }
        let base = self.values.len();
        self.symbol_table.push_scope(ScopeKind::FunctionBlock);
        let ghost names = texts(f.args@);
        let ghost given = views(values@);
        let ghost opened = self.symbol_table@;
        if values.len() >= f.args.len() {
            let mut i: usize = 0;
            while i < f.args.len()
                invariant
                    i <= f.args.len() <= values.len(),
                    self.symbol_table.wf(),
                    names == texts(f.args@),
                    given == views(values@),
                    self.symbol_table@ == bound(opened, names, given, i as nat),
                    self.tasks == old(self).tasks,
                    self.values == old(self).values,
                    self.results == old(self).results,
                    self.returning == old(self).returning,
                decreases f.args.len() - i,
            {
                self.symbol_table.set(f.args[i].as_str(), values[i].clone());
                i = i + 1;
            }
        }
        let f = *f;
        self.plan(Task::EndCall(base));
        self.plan(Task::Eval(*f.body));
        Action::Continue
    }

    /// The range that three numbers make.
    fn make_range(&mut self, values: Vec<Symbol>) -> (a: Action)
        requires
            old(self).wf(),
        ensures
            final(self).wf(),
            (final(self)@, a@) == finish(old(self)@, Gathering::Range, views(values@)),
    {
        if values.len() < 2 {
            return self.fail_with(ErrorKind::Type, "invalid range");
        }
        let start = match &values[0] {
            Symbol::Number(n) => n.to_int(),
            _ => return self.fail_with(ErrorKind::Type, "range start must be a number"),
        };
        let end = match &values[1] {
            Symbol::Number(n) => n.to_int(),
            _ => return self.fail_with(ErrorKind::Type, "range end must be a number"),
        };
        let increment = if values.len() > 2 {
            match &values[2] {
                Symbol::Number(n) => n.to_int(),
                _ => return self.fail_with(ErrorKind::Type, "range increment must be a number"),
            }
        } else {
            1
        };
        if increment == 0 {
            return self.fail_with(ErrorKind::Bounds, "range increment must not be zero");
        }
        self.leave(Some(Symbol::Range(Range::new(start, end, Some(increment)))));
        Action::Continue
    }

    /// All values are gathered.
    pub(crate) fn finish(&mut self, kind: Gathering, values: Vec<Symbol>) -> (a: Action)
        requires
            old(self).wf(),
        ensures
            final(self).wf(),
            (final(self)@, a@) == finish(old(self)@, kind@, views(values@)),
            says(a, missing_receiver(old(self)@, kind@)),
    {
        match kind {
            Gathering::List => {
                self.leave(Some(Symbol::List(List::from(values))));
                Action::Continue
            },
            Gathering::Range => self.make_range(values),
            Gathering::Command => self.speak(Purpose::Command, values),
            Gathering::Arguments(f) => self.enter_function(f, values),
            Gathering::Method(receiver, name) => {
                proof {
                    crate::ast::ast::lemma_call_node(receiver);
                }
                match receiver {
                    ASTNode::CallExpression(call) => {
                        self.plan(Task::MethodOnValue(name, values));
                        self.plan(Task::Eval(ASTNode::CallExpression(call)));
                        Action::Continue
                    },
                    receiver => match self.place_of(&receiver) {
                        Err(e) => self.fail(e),
                        Ok(place) => self.call_at(&place, name.as_str(), values),
                    },
                }
            },
        }
    }
}

} // verus!
