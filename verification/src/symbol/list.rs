use vstd::prelude::*;
use vstd::string::*;
use crate::common::utils::same_text;
use crate::error::{Error, ErrorKind};
use crate::symbol::number::Number;
use crate::symbol::symbol::{symbol_view, value_eq, views, List, Symbol, Value};

verus! {

/// The number of a count.
pub open spec fn count_value(n: nat) -> Value {
    Value::Number(Number { bits: Number::bits_of(n) as u64 })
}

/// Whether some item equals the given value.
pub open spec fn has_equal_item(items: Seq<Value>, v: Value) -> bool {
    exists|i: int| 0 <= i < items.len() && value_eq(#[trigger] items[i], v)
}

/// What `remove` does to a list and returns: the item at the index that the
/// one argument gives, which has to be a number and to lie within the list.
pub open spec fn list_remove(items: Seq<Value>, args: Seq<Value>) -> Result<
    (Seq<Value>, Option<Value>),
    ErrorKind,
> {
    if args.len() != 1 {
        Err(ErrorKind::Arity)
    } else if !(args[0] is Number) {
        Err(ErrorKind::Type)
    } else if args[0]->Number_0.as_index() >= items.len() {
        Err(ErrorKind::Bounds)
    } else {
        let index = args[0]->Number_0.as_index() as int;
        Ok((items.remove(index), Some(items[index])))
    }
}

/// What `insert` does to a list: the second argument goes in at the index
/// that the first gives, which has to be a number and to lie within the list
/// or at its end.
pub open spec fn list_insert(items: Seq<Value>, args: Seq<Value>) -> Result<
    (Seq<Value>, Option<Value>),
    ErrorKind,
> {
    if args.len() != 2 {
        Err(ErrorKind::Arity)
    } else if !(args[0] is Number) {
        Err(ErrorKind::Type)
    } else if args[0]->Number_0.as_index() > items.len() {
        Err(ErrorKind::Bounds)
    } else {
        Ok((items.insert(args[0]->Number_0.as_index() as int, args[1]), None))
    }
}

/// What `push` does to a list and returns: the one argument goes to the end,
/// and the new length comes back.
pub open spec fn list_push(items: Seq<Value>, args: Seq<Value>) -> Result<
    (Seq<Value>, Option<Value>),
    ErrorKind,
> {
    if args.len() != 1 {
        Err(ErrorKind::Arity)
    } else {
        Ok((items.push(args[0]), Some(count_value(items.len() + 1))))
    }
}

/// What `contains` returns: whether some item equals the one argument.
pub open spec fn list_contains(items: Seq<Value>, args: Seq<Value>) -> Result<
    (Seq<Value>, Option<Value>),
    ErrorKind,
> {
    if args.len() != 1 {
        Err(ErrorKind::Arity)
    } else {
        Ok((items, Some(Value::Boolean(has_equal_item(items, args[0])))))
    }
}

/// What `pop` does to a list and returns: the last item, if there is one.
pub open spec fn list_pop(items: Seq<Value>) -> (Seq<Value>, Option<Value>) {
    if items.len() == 0 {
        (items, None)
    } else {
        (items.drop_last(), Some(items.last()))
    }
}

/// What a built-in method does to a list and returns, by the name of the
/// method: the list after the call, and the value that comes back, if any.
pub open spec fn list_call(items: Seq<Value>, name: Seq<char>, args: Seq<Value>) -> Result<
    (Seq<Value>, Option<Value>),
    ErrorKind,
> {
    if name == "len"@ {
        Ok((items, Some(count_value(items.len()))))
    } else if name == "pop"@ {
        Ok(list_pop(items))
    } else if name == "push"@ {
        list_push(items, args)
    } else if name == "remove"@ {
        list_remove(items, args)
    } else if name == "contains"@ {
        list_contains(items, args)
    } else if name == "insert"@ {
        list_insert(items, args)
    } else {
        Err(ErrorKind::Type)
    }
}

/// Whether what a method did and returned is what the model says.
pub open spec fn call_agrees<T>(
    expected: Result<(T, Option<Value>), ErrorKind>,
    before: T,
    after: T,
    result: Result<Option<Symbol>, Error>,
) -> bool {
    match expected {
        Ok((items, value)) => after == items && result is Ok && match value {
            Some(v) => result->Ok_0 is Some && result->Ok_0->0@ == v,
            None => result->Ok_0 is None,
        },
        Err(kind) => after == before && result is Err && result->Err_0@ == kind,
    }
}

impl List {
    /// The list of the given items.
    pub fn from(items: Vec<Symbol>) -> (l: List)
        ensures
            l@ == views(items@),
    {
        List { items }
    }

    /// The number of items, as a value.
    pub fn len(&self) -> (r: Symbol)
        ensures
            r@ == count_value(self@.len()),
    {
        Symbol::Number(Number::from_usize(self.items.len()))
    }

    /// Takes the last item off, if there is one.
    pub fn pop(&mut self) -> (r: Option<Symbol>)
        ensures
            final(self)@ == list_pop(old(self)@).0,
            r is Some <==> old(self)@.len() > 0,
            r is Some ==> r->0@ == old(self)@.last(),
    {
        let r = self.items.pop();
        proof {
            assert(views(self.items@) =~= list_pop(views(old(self).items@)).0);
        }
        r
    }

    /// Puts the one argument at the end and returns the new length.
    pub fn push(&mut self, args: Vec<Symbol>) -> (r: Result<Symbol, Error>)
        ensures
            match list_push(old(self)@, views(args@)) {
                Ok((items, value)) => final(self)@ == items && r is Ok && Some(r->Ok_0@) == value,
                Err(kind) => final(self)@ == old(self)@ && r is Err && r->Err_0@ == kind,
            },
    {
        let ghost given = views(args@);
        let mut args = args;
        if args.len() != 1 {
            return Err(Error::new(ErrorKind::Arity, "incorrect number of arguments to push"));
        }
        let symbol = match args.pop() {
            Some(s) => s,
            None => Symbol::Nothing,
        };
        self.items.push(symbol);
        proof {
            assert(views(self.items@) =~= views(old(self).items@).push(given[0]));
        }
        Ok(self.len())
    }

    /// Takes out the item at the index that the one argument gives, and
    /// returns it.
    pub fn remove(&mut self, args: Vec<Symbol>) -> (r: Result<Symbol, Error>)
        ensures
            match list_remove(old(self)@, views(args@)) {
                Ok((items, value)) => final(self)@ == items && r is Ok && Some(r->Ok_0@) == value,
                Err(kind) => final(self)@ == old(self)@ && r is Err && r->Err_0@ == kind,
            },
    {
        if args.len() != 1 {
            return Err(Error::new(ErrorKind::Arity, "incorrect number of arguments to remove"));
        }
        let index = match &args[0] {
            Symbol::Number(n) => n.to_index(),
            _ => return Err(Error::new(ErrorKind::Type, "list indexes must be of type number")),
        };
        if index >= self.items.len() {
            return Err(Error::new(ErrorKind::Bounds, "list remove index out of range"));
        }
        let removed = self.items.remove(index);
        proof {
            assert(views(self.items@) =~= views(old(self).items@).remove(index as int));
        }
        Ok(removed)
    }

    /// Puts the second argument in at the index that the first gives.
    pub fn insert(&mut self, args: Vec<Symbol>) -> (r: Result<(), Error>)
        ensures
            match list_insert(old(self)@, views(args@)) {
                Ok((items, value)) => final(self)@ == items && r is Ok,
                Err(kind) => final(self)@ == old(self)@ && r is Err && r->Err_0@ == kind,
            },
    {
        let ghost given = views(args@);
        let mut args = args;
        if args.len() != 2 {
            return Err(Error::new(ErrorKind::Arity, "expected 2 arguments to insert"));
        }
        let index = match &args[0] {
            Symbol::Number(n) => n.to_index(),
            _ => return Err(Error::new(ErrorKind::Type, "list indexes must be of type number")),
        };
        if index > self.items.len() {
            return Err(Error::new(ErrorKind::Bounds, "list insert index out of range"));
        }
        let symbol = match args.pop() {
            Some(s) => s,
            None => Symbol::Nothing,
        };
        self.items.insert(index, symbol);
        proof {
            assert(views(self.items@) =~= views(old(self).items@).insert(index as int, given[1]));
        }
        Ok(())
    }

    /// Whether some item equals the one argument.
    pub fn contains(&self, args: Vec<Symbol>) -> (r: Result<Symbol, Error>)
        ensures
            match list_contains(self@, views(args@)) {
                Ok((items, value)) => r is Ok && Some(r->Ok_0@) == value,
                Err(kind) => r is Err && r->Err_0@ == kind,
            },
    {
        if args.len() != 1 {
            return Err(Error::new(ErrorKind::Arity, "expected 1 arguments to contains"));
        }
        let symbol = &args[0];
        let mut i: usize = 0;
        while i < self.items.len()
            invariant
                i <= self.items.len(),
                args.len() == 1,
                symbol@ == views(args@)[0],
                forall|k: int| 0 <= k < i ==> !value_eq(#[trigger] self@[k], symbol@),
            decreases self.items.len() - i,
        {
            if self.items[i].equals(symbol) {
                proof {
                    assert(value_eq(self@[i as int], symbol@));
                }
                return Ok(Symbol::Boolean(true));
            }
            i = i + 1;
        }
        Ok(Symbol::Boolean(false))
    }

    /// Calls a built-in method by its name: `len`, `pop`, `push`, `remove`,
    /// `contains` or `insert`. On an error the list stays as it was.
    pub fn call(&mut self, fname: &str, args: Vec<Symbol>) -> (r: Result<Option<Symbol>, Error>)
        ensures
            call_agrees(list_call(old(self)@, fname@, views(args@)), old(self)@, final(self)@, r),
    {
        if same_text(fname, "len") {
            Ok(Some(self.len()))
        } else if same_text(fname, "pop") {
            Ok(self.pop())
        } else if same_text(fname, "push") {
            match self.push(args) {
                Ok(v) => Ok(Some(v)),
                Err(e) => Err(e),
            }
        } else if same_text(fname, "remove") {
            match self.remove(args) {
                Ok(v) => Ok(Some(v)),
                Err(e) => Err(e),
            }
        } else if same_text(fname, "contains") {
            match self.contains(args) {
                Ok(v) => Ok(Some(v)),
                Err(e) => Err(e),
            }
        } else if same_text(fname, "insert") {
            match self.insert(args) {
                Ok(()) => Ok(None),
                Err(e) => Err(e),
            }
        } else {
            Err(Error::with_detail(ErrorKind::Type, "list has no member ", fname))
        }
    }

    /// The item at an index.
    pub fn get(&self, index: usize) -> (r: Result<&Symbol, Error>)
        ensures
            index < self@.len() ==> r is Ok && r->Ok_0@ == self@[index as int],
            index >= self@.len() ==> r is Err && r->Err_0@ == ErrorKind::Bounds,
    {
        if index < self.items.len() {
            Ok(&self.items[index])
        } else {
            Err(Error::new(ErrorKind::Bounds, "list index out of range"))
        }
    }

    /// The item at an index, to be written to.
    pub fn get_mut(&mut self, index: usize) -> (r: Result<&mut Symbol, Error>)
        ensures
            index < old(self)@.len() ==> r is Ok && *r->Ok_0 == old(self).items@[index as int]
                && final(self).items@ == old(self).items@.update(index as int, *final(r->Ok_0)),
            index >= old(self)@.len() ==> r is Err && r->Err_0@ == ErrorKind::Bounds && final(self)@ == old(self)@,
    {
        if index < self.items.len() {
            Ok(&mut self.items[index])
        } else {
            Err(Error::new(ErrorKind::Bounds, "list index out of range"))
        }
    }
}

} // verus!
