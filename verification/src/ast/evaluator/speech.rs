use vstd::prelude::*;
use vstd::string::*;
use crate::ast::ast::{template_view, texts, TemplateToken};
use crate::ast::evaluator::machine::{Action, Purpose, Task};
use crate::ast::evaluator::missing::{lemma_missing_part_stays, missing_part, not_defined};
use crate::ast::evaluator::rules::{said, speak, template_values, text_table, written_out};
use crate::ast::evaluator::ASTEvaluator;
use crate::error::{Error, ErrorKind};
use crate::symbol::display::{collect_numbers, table_view};
use crate::symbol::number::Number;
use crate::symbol::symbol::{views, StringSymbol, Symbol, Value};

verus! {

/// Writes values out one behind the other, with the texts of their numbers
/// taken from a table.
pub fn write_out(values: &Vec<Symbol>, table: &Vec<(Number, String)>) -> (r: String)
    ensures
        r@ == written_out(views(values@), table_view(table@), values@.len()),
{
    let mut out = String::new();
    let mut i: usize = 0;
    while i < values.len()
        invariant
            i <= values.len(),
            out@ == written_out(views(values@), table_view(table@), i as nat),
        decreases values.len() - i,
    {
        let text = values[i].to_string_with(table);
        out.append(text.as_str());
        i = i + 1;
    }
    out
}

/// The table that gives each number the text that came back for it.
pub fn make_table(numbers: &Vec<Number>, texts: Vec<String>) -> (r: Vec<(Number, String)>)
    ensures
        table_view(r@) == text_table(numbers@, crate::ast::ast::texts(texts@)),
{
    let mut table: Vec<(Number, String)> = Vec::new();
    let mut i: usize = 0;
    while i < numbers.len() && i < texts.len()
        invariant
            i <= numbers.len(),
            i <= texts.len(),
            table.len() == i,
            forall|k: int|
                0 <= k < i ==> (#[trigger] table@[k]).0 == numbers@[k] && table@[k].1@
                    == texts@[k]@,
        decreases numbers.len() - i,
    {
        table.push((numbers[i], texts[i].clone()));
        i = i + 1;
    }
    proof {
        assert(table_view(table@) =~= text_table(numbers@, crate::ast::ast::texts(texts@)));
    }
    table
}

impl ASTEvaluator {
    /// The values that the parts of a template string stand for.
    pub(crate) fn template_values(&self, tokens: &Vec<TemplateToken>) -> (r: Result<
        Vec<Symbol>,
        Error,
    >)
        requires
            self.wf(),
        ensures
            match template_values(self@.table, template_view(tokens@), tokens@.len()) {
                Ok(values) => r is Ok && views(r->Ok_0@) == values,
                Err(kind) => r is Err && r->Err_0@ == kind,
            },
            missing_part(self@.table, template_view(tokens@), tokens@.len()) matches Some(name)
                ==> r is Err && r->Err_0.message@ == not_defined(name),
    {
        let mut out: Vec<Symbol> = Vec::new();
        let mut i: usize = 0;
        proof {
            assert(views(out@) =~= Seq::empty());
        }
        while i < tokens.len()
            invariant
                i <= tokens.len(),
                self.wf(),
                template_values(self@.table, template_view(tokens@), i as nat) == Ok::<
                    Seq<Value>,
                    ErrorKind,
                >(views(out@)),
                missing_part(self@.table, template_view(tokens@), i as nat) is None,
            decreases tokens.len() - i,
        {
            let ghost done = views(out@);
            let symbol = match &tokens[i] {
                TemplateToken::Literal(text) => Symbol::String(StringSymbol::new(text.clone())),
                TemplateToken::Expression(name) => match self.symbol_table.get(name.as_str()) {
                    Some(symbol) => symbol.clone(),
                    None => {
                        proof {
                            lemma_template_fails(
                                self@.table,
                                template_view(tokens@),
                                (i + 1) as nat,
                                tokens@.len() as nat,
                            );
                            lemma_missing_part_stays(
                                self@.table,
                                template_view(tokens@),
                                (i + 1) as nat,
                                tokens@.len() as nat,
                            );
                        }
                        return Err(
                            Error::with_detail(ErrorKind::Name, "name is not defined: ", name.as_str()),
                        );
                    },
                },
            };
            let ghost value = symbol@;
            out.push(symbol);
            proof {
                assert(views(out@) =~= done.push(value));
            }
            i = i + 1;
        }
        Ok(out)
    }

    /// The text is made.
    pub(crate) fn said(&mut self, purpose: Purpose, text: String) -> (a: Action)
        requires
            old(self).wf(),
        ensures
            final(self).wf(),
            (final(self)@, a@) == said(old(self)@, purpose, text@),
    {
        match purpose {
            Purpose::Template => {
                self.leave(Some(Symbol::String(StringSymbol::new(text))));
                Action::Continue
            },
            Purpose::Command => {
                self.plan(Task::AwaitOutput);
                Action::Run(text)
            },
        }
    }

    /// Values are to be written out as one text.
    pub(crate) fn speak(&mut self, purpose: Purpose, values: Vec<Symbol>) -> (a: Action)
        requires
            old(self).wf(),
        ensures
            final(self).wf(),
            (final(self)@, a@) == speak(old(self)@, purpose, views(values@)),
    {
        let numbers = collect_numbers(&values);
        if numbers.len() == 0 {
            let table: Vec<(Number, String)> = Vec::new();
            proof {
                assert(table_view(table@) =~= Seq::empty());
            }
            let text = write_out(&values, &table);
            self.said(purpose, text)
        } else {
            self.plan(Task::AwaitTexts(purpose, values));
            Action::Format(numbers)
        }
    }

    /// The texts of the numbers have come back: the text is made.
    pub(crate) fn spoken(&mut self, purpose: Purpose, values: Vec<Symbol>, texts: Vec<String>) -> (a:
        Action)
        requires
            old(self).wf(),
        ensures
            final(self).wf(),
            (final(self)@, a@) == said(
                old(self)@,
                purpose,
                written_out(
                    views(values@),
                    text_table(
                        crate::symbol::display::numbers_in_items(views(values@), values@.len()),
                        crate::ast::ast::texts(texts@),
                    ),
                    values@.len(),
                ),
            ),
    {
        let numbers = collect_numbers(&values);
        let table = make_table(&numbers, texts);
        let text = write_out(&values, &table);
        self.said(purpose, text)
    }
}

/// A template string whose name at a position is not bound has no values,
/// however far it is read.
pub proof fn lemma_template_fails(
    table: crate::symbol::table::TableView,
    parts: Seq<TemplateToken<Seq<char>>>,
    at: nat,
    upto: nat,
)
    requires
        1 <= at <= upto <= parts.len(),
        template_values(table, parts, at) is Err,
    ensures
        template_values(table, parts, upto) == template_values(table, parts, at),
    decreases upto - at,
{
    if at < upto {
        lemma_template_fails(table, parts, at, (upto - 1) as nat);
    }
}

} // verus!
