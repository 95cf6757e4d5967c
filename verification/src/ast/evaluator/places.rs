use vstd::prelude::*;
use vstd::string::*;
use crate::ast::ast::{ASTNode, Node};
use crate::ast::evaluator::machine::{fail, go, Action};
use crate::ast::evaluator::missing::missing_place;
use crate::ast::evaluator::rules::{
    call_at,
    or_nothing,
    place_of,
    place_value,
    place_written,
    with_item,
    Place,
};
use crate::ast::evaluator::ASTEvaluator;
use crate::error::{Error, ErrorKind};
use crate::symbol::object::{entry_index, lemma_entry_index, property};
use crate::symbol::symbol::{entries_view, symbol_view, views, List, Object, Symbol, Value};
use crate::symbol::table::lemma_reassign;

verus! {

/// Where a value is kept that can be written to.
#[derive(Debug)]
pub struct PlaceName {
    pub name: String,
    pub property: Option<String>,
}

impl View for PlaceName {
    type V = Place;

    open spec fn view(&self) -> Place {
        Place {
            name: self.name@,
            property: match self.property {
                Some(p) => Some(p@),
                None => None,
            },
        }
    }
}

/// Writes an item of a value.
pub fn set_item(target: &mut Symbol, index: usize, item: Symbol) -> (r: Result<(), Error>)
    ensures
        match with_item(old(target)@, index, item@) {
            Ok(after) => r is Ok && final(target)@ == after,
            Err(kind) => r is Err && r->Err_0@ == kind && final(target)@ == old(target)@,
        },
{
    let ghost before = target@;
    match target.get_index_mut(index) {
        Err(e) => Err(e),
        Ok(slot) => {
            *slot = item;
            proof {
                let items = before->List_0;
                assert(views(target->List_0.items@) =~= items.update(index as int, item@));
            }
            Ok(())
        },
    }
}

impl ASTEvaluator {
    /// The place that a node names.
    pub(crate) fn place_of(&self, node: &ASTNode) -> (r: Result<PlaceName, Error>)
        requires
            self.wf(),
        ensures
            match place_of(self@.table, node@) {
                Ok(place) => r is Ok && r->Ok_0@ == place,
                Err(kind) => r is Err && r->Err_0@ == kind,
            },
            missing_place(self@.table, node@) matches Some(text) ==> r is Err
                && r->Err_0.message@ == text,
    {
        proof {
            reveal_with_fuel(crate::ast::ast::node_view, 3);
        }
        match node {
            ASTNode::Identifier(name) => match self.symbol_table.get(name.as_str()) {
                Some(_) => Ok(PlaceName { name: name.clone(), property: None }),
                None => Err(Error::with_detail(ErrorKind::Name, "name is not defined: ", name.as_str())),
            },
            ASTNode::MemberExpression(member) => match &*member.base {
                ASTNode::Identifier(name) => match self.symbol_table.get(name.as_str()) {
                    None => Err(
                        Error::with_detail(ErrorKind::Name, "name is not defined: ", name.as_str()),
                    ),
                    Some(Symbol::Object(object)) => match object.find(member.property.as_str()) {
                        Some(_) => Ok(
                            PlaceName {
                                name: name.clone(),
                                property: Some(member.property.clone()),
                            },
                        ),
                        None => Err(
                            Error::with_detail(
                                ErrorKind::Name,
                                "object has no property ",
                                member.property.as_str(),
                            ),
                        ),
                    },
                    Some(_) => Err(
                        Error::with_detail(
                            ErrorKind::Type,
                            "value has no property ",
                            member.property.as_str(),
                        ),
                    ),
                },
                _ => Err(Error::new(ErrorKind::Unsupported, "object not supported")),
            },
            _ => Err(Error::new(ErrorKind::Unsupported, "not mutable")),
        }
    }

    /// Takes the value at a place out of the bindings, as a copy.
    pub(crate) fn value_at(&self, place: &PlaceName) -> (r: Symbol)
        requires
            self.wf(),
        ensures
            r@ == place_value(self@.table, place@),
    {
        match self.symbol_table.get(place.name.as_str()) {
            None => Symbol::Nothing,
            Some(bound) => match &place.property {
                None => bound.clone(),
                Some(p) => match bound {
                    Symbol::Object(object) => object.get(p.as_str()),
                    _ => Symbol::Nothing,
                },
            },
        }
    }

    /// Writes a value to a place.
    pub(crate) fn write_at(&mut self, place: &PlaceName, value: Symbol)
        requires
            old(self).wf(),
        ensures
            final(self).wf(),
            final(self)@ == old(self)@.with_table(
                place_written(old(self)@.table, place@, value@),
            ),
    {
        match &place.property {
            None => {
                self.symbol_table.set(place.name.as_str(), value);
            },
            Some(p) => {
                let bound = match self.symbol_table.get(place.name.as_str()) {
                    Some(bound) => bound.clone(),
                    None => return ,
                };
                match bound {
                    Symbol::Object(object) => {
                        let mut object = object;
                        let ghost entries = object@;
                        match object.find(p.as_str()) {
                            Some(i) => {
                                let key = object.mapping[i].0.clone();
                                object.mapping.set(i, (key, value));
                                proof {
                                    lemma_entry_index(entries, p@);
                                    assert(object@ =~= entries.update(
                                        i as int,
                                        (entries[i as int].0, value@),
                                    ));
                                }
                                self.symbol_table.set(place.name.as_str(), Symbol::Object(object));
                            },
                            None => {},
                        }
                    },
                    _ => {},
                }
            },
        }
    }

    /// Calls a method on the value at a place and writes the value back as
    /// the method leaves it.
    pub(crate) fn call_at(&mut self, place: &PlaceName, name: &str, args: Vec<Symbol>) -> (a: Action)
        requires
            old(self).wf(),
        ensures
            final(self).wf(),
            (final(self)@, a@) == call_at(old(self)@, place@, name@, views(args@)),
    {
        if place.property.is_none() {
            proof {
                if self@.table.lookup(place.name@) is Some {
                    lemma_reassign(self@.table, place.name@);
                }
            }
            let outcome = match self.symbol_table.get_mut(place.name.as_str()) {
                Some(slot) => slot.call(name, args),
                None => Err(Error::with_detail(ErrorKind::Type, "value has no member ", name)),
            };
            return match outcome {
                Err(e) => self.fail(e),
                Ok(result) => {
                    let value = match result {
                        Some(v) => v,
                        None => Symbol::Nothing,
                    };
                    self.leave(Some(value));
                    Action::Continue
                },
            };
        }
        let mut receiver = self.value_at(place);
        match receiver.call(name, args) {
            Err(e) => self.fail(e),
            Ok(result) => {
                self.write_at(place, receiver);
                let value = match result {
                    Some(v) => v,
                    None => Symbol::Nothing,
                };
                self.leave(Some(value));
                Action::Continue
            },
        }
    }

    /// Writes an item of the value at a place.
    pub(crate) fn write_item(&mut self, place: &PlaceName, index: usize, item: Symbol) -> (a: Action)
        requires
            old(self).wf(),
        ensures
            final(self).wf(),
            (final(self)@, a@) == match with_item(
                place_value(old(self)@.table, place@),
                index,
                item@,
            ) {
                Err(kind) => fail(old(self)@, kind),
                Ok(after) => go(
                    old(self)@.with_table(place_written(old(self)@.table, place@, after)).push(
                        None,
                    ),
                ),
            },
    {
        if place.property.is_none() {
            proof {
                if self@.table.lookup(place.name@) is Some {
                    lemma_reassign(self@.table, place.name@);
                }
            }
            let outcome = match self.symbol_table.get_mut(place.name.as_str()) {
                Some(slot) => set_item(slot, index, item),
                None => Err(Error::new(ErrorKind::Type, "object is not indexable")),
            };
            return match outcome {
                Err(e) => self.fail(e),
                Ok(()) => {
                    self.leave(None);
                    Action::Continue
                },
            };
        }
        let mut target = self.value_at(place);
        let ghost before = target@;
        match target.get_index_mut(index) {
            Err(e) => self.fail(e),
            Ok(slot) => {
                *slot = item;
                proof {
                    let items = before->List_0;
                    assert(target@ == Value::List(items.update(index as int, item@))) by {
                        assert(views(target->List_0.items@) =~= items.update(index as int, item@));
                    }
                }
                self.write_at(place, target);
                self.leave(None);
                Action::Continue
            },
        }
    }
}

} // verus!
