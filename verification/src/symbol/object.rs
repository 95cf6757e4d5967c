use vstd::prelude::*;
use vstd::string::*;
use crate::common::utils::same_text;
use crate::symbol::symbol::{entries_view, symbol_view, views, List, Object, StringSymbol, Symbol, Value};

verus! {

/// The place of the first entry of the given name, if there is one.
pub open spec fn entry_index(entries: Seq<(Seq<char>, Value)>, name: Seq<char>) -> Option<int>
    decreases entries.len(),
{
    if entries.len() == 0 {
        None
    } else if entries.first().0 == name {
        Some(0)
    } else {
        match entry_index(entries.drop_first(), name) {
            Some(i) => Some(i + 1),
            None => None,
        }
    }
}

/// The first entry of a name is an entry of that name, and none before it
/// is.
pub proof fn lemma_entry_index(entries: Seq<(Seq<char>, Value)>, name: Seq<char>)
    ensures
        match entry_index(entries, name) {
            Some(i) => 0 <= i < entries.len() && entries[i].0 == name && forall|k: int|
                0 <= k < i ==> (#[trigger] entries[k]).0 != name,
            None => forall|k: int| 0 <= k < entries.len() ==> (#[trigger] entries[k]).0 != name,
        },
    decreases entries.len(),
{
    if entries.len() > 0 && entries.first().0 != name {
        lemma_entry_index(entries.drop_first(), name);
        match entry_index(entries.drop_first(), name) {
            Some(i) => {
                assert forall|k: int| 0 <= k < i + 1 implies (#[trigger] entries[k]).0 != name by {
                    if k > 0 {
                        assert(entries.drop_first()[k - 1].0 != name);
                    }
                }
            },
            None => {
                assert forall|k: int| 0 <= k < entries.len() implies (#[trigger] entries[k]).0
                    != name by {
                    if k > 0 {
                        assert(entries.drop_first()[k - 1].0 != name);
                    }
                }
            },
        }
    }
}

/// The value of a property: that of the first entry of the name, or `none`.
pub open spec fn property(entries: Seq<(Seq<char>, Value)>, name: Seq<char>) -> Value {
    match entry_index(entries, name) {
        Some(i) => entries[i].1,
        None => Value::Nothing,
    }
}

/// The entries with a property set: the value of the first entry of the
/// name is replaced, or an entry is added at the end.
pub open spec fn with_property(
    entries: Seq<(Seq<char>, Value)>,
    name: Seq<char>,
    v: Value,
) -> Seq<(Seq<char>, Value)> {
    match entry_index(entries, name) {
        Some(i) => entries.update(i, (name, v)),
        None => entries.push((name, v)),
    }
}

/// A property that was set has the value it was set to, and every other
/// property the value it had.
pub proof fn lemma_with_property(
    entries: Seq<(Seq<char>, Value)>,
    name: Seq<char>,
    v: Value,
    other: Seq<char>,
)
    ensures
        entry_index(with_property(entries, name, v), name) is Some,
        property(with_property(entries, name, v), name) == v,
        other != name ==> entry_index(with_property(entries, name, v), other) == entry_index(
            entries,
            other,
        ),
        other != name ==> property(with_property(entries, name, v), other) == property(
            entries,
            other,
        ),
{
    let after = with_property(entries, name, v);
    lemma_entry_index(entries, name);
    lemma_entry_index(after, name);
    lemma_entry_index(entries, other);
    lemma_entry_index(after, other);
    match entry_index(entries, name) {
        Some(i) => {
            assert(after[i].0 == name);
            assert forall|k: int| 0 <= k < i implies (#[trigger] after[k]).0 != name by {
                assert(entries[k].0 != name);
            }
            if other != name {
                match entry_index(entries, other) {
                    Some(j) => {
                        assert(after[j] == entries[j]);
                        assert forall|k: int| 0 <= k < j implies (#[trigger] after[k]).0
                            != other by {
                            assert(entries[k].0 != other);
                        }
                    },
                    None => {
                        assert forall|k: int| 0 <= k < after.len() implies (#[trigger] after[k]).0
                            != other by {
                            assert(entries[k].0 != other);
                        }
                    },
                }
            }
        },
        None => {
            let n = entries.len() as int;
            assert(after[n].0 == name);
            assert forall|k: int| 0 <= k < n implies (#[trigger] after[k]).0 != name by {
                assert(entries[k].0 != name);
            }
            if other != name {
                match entry_index(entries, other) {
                    Some(j) => {
                        assert(after[j] == entries[j]);
                        assert forall|k: int| 0 <= k < j implies (#[trigger] after[k]).0
                            != other by {
                            assert(entries[k].0 != other);
                        }
                    },
                    None => {
                        assert forall|k: int| 0 <= k < after.len() implies (#[trigger] after[k]).0
                            != other by {
                            if k < n {
                                assert(entries[k].0 != other);
                            }
                        }
                    },
                }
            }
        },
    }
}

/// The entries that a run of names and values builds, each set in turn: of
/// two values for one name the later one stays.
pub open spec fn built(items: Seq<(Seq<char>, Value)>) -> Seq<(Seq<char>, Value)>
    decreases items.len(),
{
    if items.len() == 0 {
        Seq::empty()
    } else {
        with_property(built(items.drop_last()), items.last().0, items.last().1)
    }
}

/// The names and values of a run of pairs.
pub open spec fn pairs_view(items: Seq<(&str, Symbol)>) -> Seq<(Seq<char>, Value)> {
    Seq::new(items.len(), |i: int| (items[i].0@, symbol_view(items[i].1)))
}

impl Object {
    /// The place of the first entry of the given name.
    pub fn find(&self, key: &str) -> (r: Option<usize>)
        ensures
            r is Some <==> entry_index(self@, key@) is Some,
            r is Some ==> r->0 < self.mapping@.len() && entry_index(self@, key@) == Some(
                r->0 as int,
            ),
    {
        let mut i: usize = 0;
        while i < self.mapping.len()
            invariant
                i <= self.mapping.len(),
                forall|k: int| 0 <= k < i ==> (#[trigger] self@[k]).0 != key@,
            decreases self.mapping.len() - i,
        {
            if same_text(self.mapping[i].0.as_str(), key) {
                proof {
                    lemma_entry_index(self@, key@);
                    assert(self@[i as int].0 == key@);
                }
                return Some(i);
            }
            i = i + 1;
        }
        proof {
            lemma_entry_index(self@, key@);
        }
        None
    }

    /// Sets a property.
    pub fn set(&mut self, key: &str, value: Symbol)
        ensures
            final(self)@ == with_property(old(self)@, key@, value@),
    {
        match self.find(key) {
            Some(i) => {
                self.mapping.set(i, (String::from_str(key), value));
                proof {
                    assert(self@ =~= with_property(old(self)@, key@, value@));
                }
            },
            None => {
                self.mapping.push((String::from_str(key), value));
                proof {
                    assert(self@ =~= with_property(old(self)@, key@, value@));
                }
            },
        }
    }

    /// The object that a run of names and values builds.
    pub fn from(items: Vec<(&str, Symbol)>) -> (r: Object)
        ensures
            r@ == built(pairs_view(items@)),
    {
        let mut object = Object { mapping: Vec::new() };
        let mut i: usize = 0;
        proof {
            assert(pairs_view(items@).subrange(0, 0) =~= Seq::empty());
        }
        while i < items.len()
            invariant
                i <= items.len(),
                object@ == built(pairs_view(items@).subrange(0, i as int)),
            decreases items.len() - i,
        {
            let pair = &items[i];
            proof {
                let longer = pairs_view(items@).subrange(0, i + 1);
                assert(longer.drop_last() =~= pairs_view(items@).subrange(0, i as int));
                assert(longer.last() == (pair.0@, pair.1@));
            }
            object.set(pair.0, pair.1.clone());
            i = i + 1;
        }
        proof {
            assert(pairs_view(items@).subrange(0, i as int) =~= pairs_view(items@));
        }
        object
    }

    /// The value of a property, or `none` where the object has none of the
    /// name.
    pub fn get(&self, key: &str) -> (r: Symbol)
        ensures
            r@ == property(self@, key@),
    {
        match self.find(key) {
            Some(i) => self.mapping[i].1.clone(),
            None => Symbol::Nothing,
        }
    }

    /// The value of a property, to be written to.
    pub fn get_mut(&mut self, key: &str) -> (r: Option<&mut Symbol>)
        ensures
            match entry_index(old(self)@, key@) {
                Some(i) => r is Some && *r->0 == old(self).mapping@[i].1 && final(self).mapping@
                    == old(self).mapping@.update(i, (old(self).mapping@[i].0, *final(r->0))),
                None => r is None && final(self)@ == old(self)@,
            },
    {
        match self.find(key) {
            Some(i) => Some(&mut self.mapping[i].1),
            None => None,
        }
    }
}

/// The global variables of a program: `process`, an object whose property
/// `argv` lists the arguments that the program was started with.
pub fn get_global_vars(argv: Vec<String>) -> (r: Vec<(&'static str, Symbol)>)
    ensures
        r@.len() == 1,
        r@[0].0@ == "process"@,
        r@[0].1@ == Value::Object(
            seq![("argv"@, Value::List(Seq::new(argv@.len(), |i: int| Value::String(argv@[i]@))))],
        ),
{
    let mut args: Vec<Symbol> = Vec::new();
    let mut i: usize = 0;
    while i < argv.len()
        invariant
            i <= argv.len(),
            args.len() == i,
            forall|k: int| 0 <= k < i ==> symbol_view(args@[k]) == Value::String(argv@[k]@),
        decreases argv.len() - i,
    {
        args.push(Symbol::String(StringSymbol::new(argv[i].clone())));
        i = i + 1;
    }
    let list = Symbol::List(List::from(args));
    proof {
        assert(views(args@) =~= Seq::new(argv@.len(), |i: int| Value::String(argv@[i]@)));
    }
    let mut properties: Vec<(&str, Symbol)> = Vec::new();
    properties.push(("argv", list));
    let process = Object::from(properties);
    proof {
        let given = pairs_view(properties@);
        assert(given.drop_last() =~= Seq::empty());
        assert(built(given.drop_last()) =~= Seq::empty());
        assert(entry_index(Seq::<(Seq<char>, Value)>::empty(), "argv"@) is None);
        assert(process@ =~= seq![("argv"@, list@)]);
    }
    let mut globals: Vec<(&'static str, Symbol)> = Vec::new();
    globals.push(("process", Symbol::Object(process)));
    globals
}

} // verus!
