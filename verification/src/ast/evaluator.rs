pub mod gathering;
pub mod machine;
pub mod missing;
pub mod places;
pub mod rules;
pub mod speech;
pub mod walk;
pub mod work;

use vstd::prelude::*;
use vstd::string::*;
use crate::ast::ast::ASTNode;
use crate::ast::evaluator::machine::{
    fail,
    go,
    option_views,
    task_views,
    Action,
    Machine,
    Reply,
    Task,
    TaskView,
};
use crate::ast::evaluator::rules::{loaded, step, ReplyView};
use crate::error::{Error, ErrorKind};
use crate::symbol::object::get_global_vars;
use crate::symbol::scope::GLOBAL_SCOPE_ID;
use crate::symbol::symbol::{Symbol, Value};
use crate::symbol::table::SymbolTable;

verus! {

/// The model of an optional value.
pub open spec fn optional(v: Option<Symbol>) -> Option<Value> {
    match v {
        Some(s) => Some(s@),
        None => None,
    }
}

/// The model of a reply that may be given.
pub open spec fn reply_view(reply: Option<Reply>) -> Option<ReplyView> {
    match reply {
        Some(r) => Some(r@),
        None => None,
    }
}

/// An evaluator of programs. It walks the tree of a program step by step and
/// keeps the bindings of its names. What it cannot do itself, it asks for:
/// arithmetic on numbers, the number of a decimal literal, the texts of
/// numbers, and the running of commands. Its caller does what is asked for
/// and hands the reply to the next step.
pub struct ASTEvaluator {
    pub symbol_table: SymbolTable,
    pub tasks: Vec<Task>,
    pub values: Vec<Option<Symbol>>,
    pub results: Vec<Option<Symbol>>,
    pub returning: Option<Option<Symbol>>,
}

impl View for ASTEvaluator {
    type V = Machine;

    open spec fn view(&self) -> Machine {
        Machine {
            table: self.symbol_table@,
            tasks: task_views(self.tasks@),
            values: option_views(self.values@),
            results: option_views(self.results@),
            returning: match self.returning {
                Some(v) => Some(optional(v)),
                None => None,
            },
        }
    }
}

impl ASTEvaluator {
    /// Whether the evaluator is well-formed: its bindings are.
    pub open spec fn wf(&self) -> bool {
        self.symbol_table.wf()
    }

    /// An evaluator with nothing to do, in which `process.argv` lists the
    /// given arguments.
    pub fn new(argv: Vec<String>) -> (e: ASTEvaluator)
        ensures
            e.wf(),
            e@.tasks.len() == 0,
            e@.values.len() == 0,
            e@.results.len() == 0,
            e@.returning is None,
            e@.table.scopes.frames.len() == 1,
            e@.table.scopes.frames[0].len() == 1,
            e@.table.frames.dom() == set![GLOBAL_SCOPE_ID],
            e@.table.frames[GLOBAL_SCOPE_ID] == seq![
                (
                    "process"@,
                    Value::Object(
                        seq![
                            (
                                "argv"@,
                                Value::List(
                                    Seq::new(argv@.len(), |i: int| Value::String(argv@[i]@)),
                                ),
                            ),
                        ],
                    ),
                ),
            ],
    {
        let global_vars = get_global_vars(argv);
        proof {
            let given = crate::symbol::object::pairs_view(global_vars@);
            assert(given.drop_last() =~= Seq::empty());
            assert(crate::symbol::object::built(given.drop_last()) =~= Seq::empty());
            assert(crate::symbol::object::entry_index(
                Seq::<(Seq<char>, Value)>::empty(),
                "process"@,
            ) is None);
            assert(crate::symbol::object::built(given) =~= seq![given[0]]);
        }
        ASTEvaluator {
            symbol_table: SymbolTable::from(global_vars),
            tasks: Vec::new(),
            values: Vec::new(),
            results: Vec::new(),
            returning: None,
        }
    }

    /// Leaves a value on top.
    pub(crate) fn leave(&mut self, v: Option<Symbol>)
        ensures
            final(self)@ == old(self)@.push(optional(v)),
            final(self).symbol_table == old(self).symbol_table,
    {
        self.values.push(v);
        proof {
            assert(option_views(self.values@) =~= option_views(old(self).values@).push(
                optional(v),
            ));
        }
    }

    /// Puts a piece of work on top.
    pub(crate) fn plan(&mut self, task: Task)
        ensures
            final(self)@ == old(self)@.plan(task@),
            final(self).symbol_table == old(self).symbol_table,
    {
        self.tasks.push(task);
        proof {
            assert(task_views(self.tasks@) =~= task_views(old(self).tasks@).push(task@));
        }
    }

    /// Takes the value on top, if there is one.
    pub(crate) fn take(&mut self) -> (r: Option<Option<Symbol>>)
        ensures
            final(self).symbol_table == old(self).symbol_table,
            old(self)@.values.len() == 0 ==> r is None && final(self)@ == old(self)@,
            old(self)@.values.len() > 0 ==> r is Some && optional(r->0) == old(self)@.values.last()
                && final(self)@ == old(self)@.drop_value(),
    {
        let r = self.values.pop();
        proof {
            if old(self).values@.len() > 0 {
                assert(option_views(self.values@) =~= option_views(old(self).values@).drop_last());
            }
        }
        r
    }

    /// Fails: nothing is left to do and no value is kept.
    pub(crate) fn fail(&mut self, e: Error) -> (a: Action)
        ensures
            final(self).symbol_table == old(self).symbol_table,
            (final(self)@, a@) == fail(old(self)@, e@),
            a matches Action::Failed(given) && given == e,
    {
        self.tasks = Vec::new();
        self.values = Vec::new();
        self.results = Vec::new();
        self.returning = None;
        proof {
            assert(task_views(self.tasks@) =~= Seq::empty());
            assert(option_views(self.values@) =~= Seq::empty());
            assert(option_views(self.results@) =~= Seq::empty());
        }
        Action::Failed(e)
    }

    /// Fails with a failure of a kind.
    pub(crate) fn fail_with(&mut self, kind: ErrorKind, message: &str) -> (a: Action)
        ensures
            final(self).symbol_table == old(self).symbol_table,
            (final(self)@, a@) == fail(old(self)@, kind),
    {
        self.fail(Error::new(kind, message))
    }

    /// Starts on a program: its statements are all that is to do. The
    /// bindings stay. What is not a program is refused.
    pub fn eval(&mut self, program: ASTNode) -> (a: Action)
        requires
            old(self).wf(),
        ensures
            final(self).wf(),
            (final(self)@, a@) == loaded(old(self)@, program@),
    {
        match program {
            ASTNode::Program(root) => {
                self.tasks = Vec::new();
                self.values = Vec::new();
                self.results = Vec::new();
                self.returning = None;
                let ghost body = crate::ast::ast::view_all(root@);
                self.tasks.push(Task::Program(*root, 0));
                proof {
                    assert(task_views(self.tasks@) =~= seq![
                        rules_program(body),
                    ]);
                    assert(option_views(self.values@) =~= Seq::empty());
                    assert(option_views(self.results@) =~= Seq::empty());
                }
                Action::Continue
            },
            _ => self.fail_with(ErrorKind::Type, "expected program"),
        }
    }
}

/// The work on the statements of a program from its start.
pub open spec fn rules_program(body: Seq<crate::ast::ast::Node>) -> TaskView {
    Task::Program(body, 0)
}

} // verus!
