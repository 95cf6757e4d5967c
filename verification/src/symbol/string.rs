use vstd::prelude::*;
use vstd::string::*;
use vstd::utf8::*;
use crate::common::utils::{
    occurs_in,
    on_boundary,
    push_char,
    same_text,
    str_contains,
    str_trim,
    string_insert_str,
    string_pop,
    string_remove as remove_char,
    text_before,
    text_from,
    trimmed_end,
    trimmed_start,
    unicode_white_space,
};
use crate::error::{Error, ErrorKind};
use crate::symbol::list::{call_agrees, count_value};
use crate::symbol::number::Number;
use crate::symbol::symbol::{views, StringSymbol, Symbol, Value};

verus! {

/// The length of a text in bytes, in UTF-8.
pub open spec fn byte_length(text: Seq<char>) -> nat {
    encode_utf8(text).len()
}

/// The text of one character, as a value.
pub open spec fn char_value(c: char) -> Value {
    Value::String(seq![c])
}

/// A text without the white space at its two ends.
pub open spec fn trimmed(text: Seq<char>) -> Seq<char> {
    trimmed_end(
        trimmed_start(text, |c: char| unicode_white_space(c)),
        |c: char| unicode_white_space(c),
    )
}

/// What `insert` does to a string: the second argument, a string, goes in at
/// the byte offset that the first gives, which has to be a number and to lie
/// on a character boundary of the string.
pub open spec fn string_insert(text: Seq<char>, args: Seq<Value>) -> Result<
    (Seq<char>, Option<Value>),
    ErrorKind,
> {
    if args.len() != 2 {
        Err(ErrorKind::Arity)
    } else if !(args[0] is Number) {
        Err(ErrorKind::Type)
    } else {
        let index = args[0]->Number_0.as_index() as int;
        if index > byte_length(text) || !on_boundary(text, index) {
            Err(ErrorKind::Bounds)
        } else if !(args[1] is String) {
            Err(ErrorKind::Type)
        } else {
            Ok((text_before(text, index) + args[1]->String_0 + text_from(text, index), None))
        }
    }
}

/// What `remove` does to a string and returns: the character that starts at
/// the byte offset that the one argument gives, which has to be a number and
/// to lie on a character boundary before the end.
pub open spec fn string_remove(text: Seq<char>, args: Seq<Value>) -> Result<
    (Seq<char>, Option<Value>),
    ErrorKind,
> {
    if args.len() != 1 {
        Err(ErrorKind::Arity)
    } else if !(args[0] is Number) {
        Err(ErrorKind::Type)
    } else {
        let index = args[0]->Number_0.as_index() as int;
        if index >= byte_length(text) || !on_boundary(text, index) {
            Err(ErrorKind::Bounds)
        } else {
            Ok(
                (
                    text_before(text, index) + text_from(text, index).drop_first(),
                    Some(char_value(text_from(text, index).first())),
                ),
            )
        }
    }
}

/// What `pop` does to a string and returns: the last character, if there is
/// one.
pub open spec fn string_pop_last(text: Seq<char>) -> (Seq<char>, Option<Value>) {
    if text.len() == 0 {
        (text, None)
    } else {
        (text.drop_last(), Some(char_value(text.last())))
    }
}

/// What `push` does to a string and returns: the one argument, a string,
/// goes to the end, and the new length in bytes comes back.
pub open spec fn string_push(text: Seq<char>, args: Seq<Value>) -> Result<
    (Seq<char>, Option<Value>),
    ErrorKind,
> {
    if args.len() != 1 {
        Err(ErrorKind::Arity)
    } else if !(args[0] is String) {
        Err(ErrorKind::Type)
    } else {
        Ok(
            (
                text + args[0]->String_0,
                Some(count_value(byte_length(text + args[0]->String_0))),
            ),
        )
    }
}

/// What `contains` returns: whether the one argument, a string, occurs in the
/// string.
pub open spec fn string_contains(text: Seq<char>, args: Seq<Value>) -> Result<
    (Seq<char>, Option<Value>),
    ErrorKind,
> {
    if args.len() != 1 {
        Err(ErrorKind::Arity)
    } else if !(args[0] is String) {
        Err(ErrorKind::Type)
    } else {
        Ok((text, Some(Value::Boolean(occurs_in(args[0]->String_0, text)))))
    }
}

/// What a built-in method does to a string and returns, by the name of the
/// method: the string after the call, and the value that comes back, if any.
pub open spec fn string_call(text: Seq<char>, name: Seq<char>, args: Seq<Value>) -> Result<
    (Seq<char>, Option<Value>),
    ErrorKind,
> {
    if name == "insert"@ {
        string_insert(text, args)
    } else if name == "remove"@ {
        string_remove(text, args)
    } else if name == "pop"@ {
        Ok(string_pop_last(text))
    } else if name == "len"@ {
        Ok((text, Some(count_value(byte_length(text)))))
    } else if name == "push"@ {
        string_push(text, args)
    } else if name == "trim"@ {
        Ok((text, Some(Value::String(trimmed(text)))))
    } else if name == "contains"@ {
        string_contains(text, args)
    } else {
        Err(ErrorKind::Type)
    }
}

/// The UTF-8 form of two texts put together is the two forms put together.
pub proof fn lemma_encode_concat(a: Seq<char>, b: Seq<char>)
    ensures
        encode_utf8(a + b) == encode_utf8(a) + encode_utf8(b),
    decreases a.len(),
{
    if a.len() == 0 {
        assert(a + b =~= b);
        assert(encode_utf8(a) + encode_utf8(b) =~= encode_utf8(b));
    } else {
        lemma_encode_concat(a.drop_first(), b);
        assert((a + b).drop_first() =~= a.drop_first() + b);
        assert((a + b)[0] == a[0]);
        assert(encode_utf8(a + b) =~= encode_utf8(a) + encode_utf8(b));
    }
}

/// Two strings put together are as long as the two together: the length of
/// `a + b` is the length of `a` plus the length of `b`.
pub proof fn law_concat_length(a: Seq<char>, b: Seq<char>)
    ensures
        byte_length(a + b) == byte_length(a) + byte_length(b),
{
    lemma_encode_concat(a, b);
}

/// The string of one character.
pub fn char_symbol(c: char) -> (r: Symbol)
    ensures
        r@ == char_value(c),
{
    let mut s = String::new();
    push_char(&mut s, c);
    proof {
        assert(s@ =~= seq![c]);
    }
    Symbol::String(StringSymbol { value: s })
}

impl StringSymbol {
    /// The string value of a text.
    pub fn new(s: String) -> (r: StringSymbol)
        ensures
            r@ == s@,
    {
        StringSymbol { value: s }
    }

    /// The character at a position, counted in characters, as a string.
    pub fn get(&self, index: usize) -> (r: Result<Symbol, Error>)
        ensures
            index < self@.len() ==> r is Ok && r->Ok_0@ == char_value(self@[index as int]),
            index >= self@.len() ==> r is Err && r->Err_0@ == ErrorKind::Bounds,
    {
        let text = self.value.as_str();
        if index < text.unicode_len() {
            Ok(char_symbol(text.get_char(index)))
        } else {
            Err(Error::new(ErrorKind::Bounds, "string index out of range"))
        }
    }

    /// The length in bytes, as a value.
    pub fn len(&self) -> (r: Symbol)
        ensures
            r@ == count_value(byte_length(self@)),
    {
        Symbol::Number(Number::from_usize(self.value.as_str().as_bytes().len()))
    }

    /// Puts the second argument in at the byte offset that the first gives.
    pub fn insert(&mut self, args: Vec<Symbol>) -> (r: Result<(), Error>)
        ensures
            match string_insert(old(self)@, views(args@)) {
                Ok((text, value)) => final(self)@ == text && r is Ok,
                Err(kind) => final(self)@ == old(self)@ && r is Err && r->Err_0@ == kind,
            },
    {
        if args.len() != 2 {
            return Err(Error::new(ErrorKind::Arity, "expected 2 arguments to insert"));
        }
        let index = match &args[0] {
            Symbol::Number(n) => n.to_index(),
            _ => return Err(Error::new(ErrorKind::Type, "string indexes must be of type number")),
        };
        if index > self.value.as_str().as_bytes().len() || !self.value.as_str().is_char_boundary(
            index,
        ) {
            return Err(Error::new(ErrorKind::Bounds, "string insert index out of range"));
        }
        let string = match &args[1] {
            Symbol::String(s) => &s.value,
            _ => return Err(Error::new(ErrorKind::Type, "can only insert string into a string")),
        };
        string_insert_str(&mut self.value, index, string.as_str());
        Ok(())
    }

    /// Takes out the character that starts at the byte offset that the one
    /// argument gives, and returns it as a string.
    pub fn remove(&mut self, args: Vec<Symbol>) -> (r: Result<Symbol, Error>)
        ensures
            match string_remove(old(self)@, views(args@)) {
                Ok((text, value)) => final(self)@ == text && r is Ok && Some(r->Ok_0@) == value,
                Err(kind) => final(self)@ == old(self)@ && r is Err && r->Err_0@ == kind,
            },
    {
        if args.len() != 1 {
            return Err(Error::new(ErrorKind::Arity, "incorrect number of arguments to remove"));
        }
        let index = match &args[0] {
            Symbol::Number(n) => n.to_index(),
            _ => return Err(Error::new(ErrorKind::Type, "string indexes must be of type number")),
        };
        if index >= self.value.as_str().as_bytes().len() || !self.value.as_str().is_char_boundary(
            index,
        ) {
            return Err(Error::new(ErrorKind::Bounds, "string remove index out of range"));
        }
        let removed = remove_char(&mut self.value, index);
        Ok(char_symbol(removed))
    }

    /// Takes the last character off, if there is one, and returns it as a
    /// string.
    pub fn pop(&mut self) -> (r: Option<Symbol>)
        ensures
            final(self)@ == string_pop_last(old(self)@).0,
            option_matches(r, string_pop_last(old(self)@).1),
    {
        match string_pop(&mut self.value) {
            Some(popped) => Some(char_symbol(popped)),
            None => None,
        }
    }

    /// Puts the one argument, a string, at the end and returns the new length
    /// in bytes.
    pub fn push(&mut self, args: Vec<Symbol>) -> (r: Result<Symbol, Error>)
        ensures
            match string_push(old(self)@, views(args@)) {
                Ok((text, value)) => final(self)@ == text && r is Ok && Some(r->Ok_0@) == value,
                Err(kind) => final(self)@ == old(self)@ && r is Err && r->Err_0@ == kind,
            },
    {
        if args.len() != 1 {
            return Err(Error::new(ErrorKind::Arity, "incorrect number of arguments to push"));
        }
        let symbol = match &args[0] {
            Symbol::String(s) => &s.value,
            _ => return Err(Error::new(ErrorKind::Type, "can only add a string to a string")),
        };
        self.value.append(symbol.as_str());
        Ok(self.len())
    }

    /// The string without the white space at its two ends. The string itself
    /// stays.
    pub fn trim(&self) -> (r: Symbol)
        ensures
            r@ == Value::String(trimmed(self@)),
    {
        Symbol::String(StringSymbol { value: String::from_str(str_trim(self.value.as_str())) })
    }

    /// Whether the one argument, a string, occurs in the string.
    pub fn contains(&self, args: Vec<Symbol>) -> (r: Result<Symbol, Error>)
        ensures
            match string_contains(self@, views(args@)) {
                Ok((text, value)) => r is Ok && Some(r->Ok_0@) == value,
                Err(kind) => r is Err && r->Err_0@ == kind,
            },
    {
        if args.len() != 1 {
            return Err(Error::new(ErrorKind::Arity, "expected 1 arguments to contains"));
        }
        let needle = match &args[0] {
            Symbol::String(s) => &s.value,
            _ => return Err(Error::new(ErrorKind::Type, "string contains expected a string")),
        };
        Ok(Symbol::Boolean(str_contains(self.value.as_str(), needle.as_str())))
    }

    /// Calls a built-in method by its name: `insert`, `remove`, `pop`, `len`,
    /// `push`, `trim` or `contains`. On an error the string stays as it was.
    pub fn call(&mut self, fname: &str, args: Vec<Symbol>) -> (r: Result<Option<Symbol>, Error>)
        ensures
            call_agrees(
                string_call(old(self)@, fname@, views(args@)),
                old(self)@,
                final(self)@,
                r,
            ),
    {
        if same_text(fname, "insert") {
            match self.insert(args) {
                Ok(()) => Ok(None),
                Err(e) => Err(e),
            }
        } else if same_text(fname, "remove") {
            match self.remove(args) {
                Ok(v) => Ok(Some(v)),
                Err(e) => Err(e),
            }
        } else if same_text(fname, "pop") {
            Ok(self.pop())
        } else if same_text(fname, "len") {
            Ok(Some(self.len()))
        } else if same_text(fname, "push") {
            match self.push(args) {
                Ok(v) => Ok(Some(v)),
                Err(e) => Err(e),
            }
        } else if same_text(fname, "trim") {
            Ok(Some(self.trim()))
        } else if same_text(fname, "contains") {
            match self.contains(args) {
                Ok(v) => Ok(Some(v)),
                Err(e) => Err(e),
            }
        } else {
            Err(Error::with_detail(ErrorKind::Type, "string has no member ", fname))
        }
    }

    /// The characters of the string, to be taken one by one.
    pub fn into_iter(self) -> (r: StringSymbolIterator)
        ensures
            r.value@ == self@,
            r.index == 0,
    {
        StringSymbolIterator { value: self.value, index: 0 }
    }
}

/// Whether an optional symbol stands for an optional value.
pub open spec fn option_matches(s: Option<Symbol>, v: Option<Value>) -> bool {
    match v {
        Some(v) => s is Some && s->0@ == v,
        None => s is None,
    }
}

/// A walk over the characters of a string.
#[derive(Debug)]
pub struct StringSymbolIterator {
    pub value: String,
    pub index: usize,
}

impl StringSymbolIterator {
    /// Yields the next character as a string and moves on, or yields nothing
    /// at the end.
    pub fn next(&mut self) -> (r: Option<Symbol>)
        ensures
            final(self).value@ == old(self).value@,
            old(self).index < old(self).value@.len() ==> r is Some && r->0@ == char_value(
                old(self).value@[old(self).index as int],
            ) && final(self).index == old(self).index + 1,
            old(self).index >= old(self).value@.len() ==> r is None && final(self).index == old(
                self,
            ).index,
    {
        let text = self.value.as_str();
        if self.index < text.unicode_len() {
            let next = char_symbol(text.get_char(self.index));
            self.index = self.index + 1;
            Some(next)
        } else {
            None
        }
    }
}

} // verus!
