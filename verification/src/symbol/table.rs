use std::collections::hash_map::Entry;
use std::collections::HashMap;
use vstd::prelude::*;
use vstd::string::*;
use crate::symbol::object::{
    entry_index,
    lemma_entry_index,
    lemma_with_property,
    property,
    with_property,
};
use crate::symbol::scope::{
    global_scope,
    lemma_pop,
    lemma_push_then_pop,
    Scope,
    ScopeKind,
    ScopeStack,
    ScopeStackView,
    GLOBAL_SCOPE_ID,
};
use crate::symbol::symbol::{symbol_view, Object, Symbol, Value};

verus! {

/// The model of the bindings that are kept: under the identity of a frame,
/// the names that the frame binds, with their values.
pub type FramesView = Map<usize, Seq<(Seq<char>, Value)>>;

/// The model of the bindings that a map of frames keeps.
pub open spec fn frames_view(frames: Map<usize, Object>) -> FramesView {
    Map::new(|id: usize| frames.contains_key(id), |id: usize| frames[id]@)
}

/// The bindings that are kept under an identity; none where nothing is kept
/// under it.
pub open spec fn bindings_of(frames: FramesView, id: usize) -> Seq<(Seq<char>, Value)> {
    if frames.contains_key(id) {
        frames[id]
    } else {
        Seq::empty()
    }
}

/// Whether the frame of an identity binds a name.
pub open spec fn binds(frames: FramesView, id: usize, name: Seq<char>) -> bool {
    entry_index(bindings_of(frames, id), name) is Some
}

/// The frame that a name is resolved in: the innermost frame of the
/// activation that binds it.
pub open spec fn owner(active: Seq<Scope>, frames: FramesView, name: Seq<char>) -> Option<usize>
    decreases active.len(),
{
    if active.len() == 0 {
        None
    } else if binds(frames, active.last().id, name) {
        Some(active.last().id)
    } else {
        owner(active.drop_last(), frames, name)
    }
}

/// The bindings with a name set in the frame of an identity.
pub open spec fn with_binding(
    frames: FramesView,
    id: usize,
    name: Seq<char>,
    v: Value,
) -> FramesView {
    if frames.contains_key(id) {
        frames.insert(id, with_property(frames[id], name, v))
    } else {
        frames
    }
}

/// The model of a symbol table: the frames that are open, and the bindings
/// of each under its identity.
pub struct TableView {
    pub scopes: ScopeStackView,
    pub frames: FramesView,
}

impl TableView {
    /// The frames are well-formed, and bindings are kept for the global
    /// frame and for every frame that is open, and for nothing else.
    pub open spec fn wf(self) -> bool {
        &&& self.scopes.wf()
        &&& self.frames.contains_key(GLOBAL_SCOPE_ID)
        &&& forall|id: usize| #[trigger] self.scopes.holds(id) ==> self.frames.contains_key(id)
        &&& forall|id: usize| #[trigger]
            self.frames.contains_key(id) ==> id == GLOBAL_SCOPE_ID || self.scopes.holds(id)
    }

    /// The frame that a name is resolved in, seen from the current
    /// activation.
    pub open spec fn owner(self, name: Seq<char>) -> Option<usize> {
        owner(self.scopes.active(), self.frames, name)
    }

    /// The value that a name resolves to: that of the innermost frame of the
    /// current activation that binds it.
    pub open spec fn lookup(self, name: Seq<char>) -> Option<Value> {
        match self.owner(name) {
            Some(id) => Some(property(bindings_of(self.frames, id), name)),
            None => None,
        }
    }

    /// The value that the global frame gives a name.
    pub open spec fn global(self, name: Seq<char>) -> Option<Value> {
        if binds(self.frames, GLOBAL_SCOPE_ID, name) {
            Some(property(bindings_of(self.frames, GLOBAL_SCOPE_ID), name))
        } else {
            None
        }
    }

    /// The frame that an assignment to a name writes to: the frame that the
    /// name is resolved in, or the innermost frame where it is not bound.
    pub open spec fn target(self, name: Seq<char>) -> usize {
        match self.owner(name) {
            Some(id) => id,
            None => self.scopes.current().id,
        }
    }

    /// The table after a value was assigned to a name.
    pub open spec fn assigned(self, name: Seq<char>, v: Value) -> TableView {
        TableView {
            scopes: self.scopes,
            frames: with_binding(self.frames, self.target(name), name, v),
        }
    }

    /// The table after a frame of a kind was opened, with no bindings.
    pub open spec fn pushed(self, kind: ScopeKind) -> TableView {
        TableView {
            scopes: self.scopes.pushed(kind),
            frames: self.frames.insert(self.scopes.counter as usize, Seq::empty()),
        }
    }

    /// The table after the innermost frame was closed and its bindings
    /// dropped.
    pub open spec fn popped(self) -> TableView {
        TableView {
            scopes: self.scopes.popped(),
            frames: self.frames.remove(self.scopes.current().id),
        }
    }
}

/// What is resolved in an activation depends on the bindings of its frames
/// alone.
pub proof fn lemma_owner_depends(
    active: Seq<Scope>,
    frames: FramesView,
    other: FramesView,
    name: Seq<char>,
)
    requires
        forall|j: int|
            0 <= j < active.len() ==> bindings_of(frames, (#[trigger] active[j]).id) == bindings_of(
                other,
                active[j].id,
            ),
    ensures
        owner(active, frames, name) == owner(active, other, name),
    decreases active.len(),
{
    if active.len() > 0 {
        assert(active.last() == active[active.len() - 1]);
        assert forall|j: int| 0 <= j < active.drop_last().len() implies bindings_of(
            frames,
            (#[trigger] active.drop_last()[j]).id,
        ) == bindings_of(other, active.drop_last()[j].id) by {
            assert(active.drop_last()[j] == active[j]);
        }
        lemma_owner_depends(active.drop_last(), frames, other, name);
    }
}

/// The frame that a name is resolved in is a frame of the activation and
/// binds the name.
pub proof fn lemma_owner(active: Seq<Scope>, frames: FramesView, name: Seq<char>)
    ensures
        match owner(active, frames, name) {
            Some(id) => binds(frames, id, name) && exists|j: int|
                0 <= j < active.len() && (#[trigger] active[j]).id == id,
            None => forall|j: int|
                0 <= j < active.len() ==> !binds(frames, (#[trigger] active[j]).id, name),
        },
    decreases active.len(),
{
    if active.len() > 0 {
        let last = active.len() - 1;
        if binds(frames, active.last().id, name) {
            assert(active[last].id == active.last().id);
        } else {
            lemma_owner(active.drop_last(), frames, name);
            match owner(active.drop_last(), frames, name) {
                Some(id) => {
                    let j = choose|j: int|
                        0 <= j < active.drop_last().len() && (#[trigger] active.drop_last()[j]).id
                            == id;
                    assert(active[j].id == id);
                },
                None => {
                    assert forall|j: int| 0 <= j < active.len() implies !binds(
                        frames,
                        (#[trigger] active[j]).id,
                        name,
                    ) by {
                        if j < last {
                            assert(active.drop_last()[j] == active[j]);
                        }
                    }
                },
            }
        }
    }
}

/// The bindings of the program: a stack of frames, and for each frame that is
/// open the names it binds, kept under the identity of the frame. Names are
/// resolved in the current activation, from its innermost frame down to the
/// global one.
pub struct SymbolTable {
    pub scoped_table: HashMap<usize, Object>,
    scope: ScopeStack,
}

impl View for SymbolTable {
    type V = TableView;

    closed spec fn view(&self) -> TableView {
        TableView { scopes: self.scope@, frames: frames_view(self.scoped_table@) }
    }
}

impl SymbolTable {
    /// Whether the table is well-formed.
    pub open spec fn wf(&self) -> bool {
        self@.wf() && self@.scopes.counter <= usize::MAX
    }

    /// The table of a program that starts with the given global variables,
    /// each assigned in turn.
    pub fn from(global_vars: Vec<(&str, Symbol)>) -> (t: SymbolTable)
        ensures
            t.wf(),
            t@.scopes.frames == seq![seq![global_scope()]],
            t@.scopes.counter == 1,
            t@.frames == Map::<usize, Seq<(Seq<char>, Value)>>::empty().insert(
                GLOBAL_SCOPE_ID,
                crate::symbol::object::built(crate::symbol::object::pairs_view(global_vars@)),
            ),
    {
        let mut scoped_table: HashMap<usize, Object> = HashMap::new();
        scoped_table.insert(GLOBAL_SCOPE_ID, Object::from(global_vars));
        let t = SymbolTable { scoped_table, scope: ScopeStack::new() };
        proof {
            assert(t@.scopes.frames[0] =~= seq![global_scope()]);
            assert(t@.frames =~= Map::<usize, Seq<(Seq<char>, Value)>>::empty().insert(
                GLOBAL_SCOPE_ID,
                crate::symbol::object::built(crate::symbol::object::pairs_view(global_vars@)),
            ));
            assert forall|id: usize| #[trigger] t@.scopes.holds(id) implies t@.frames.contains_key(
                id,
            ) by {
                let (i, j) = choose|i: int, j: int|
                    0 <= i < t@.scopes.frames.len() && 1 <= j < t@.scopes.frames[i].len()
                        && #[trigger] t@.scopes.frames[i][j].id == id;
            }
        }
        t
    }

    /// Where a name is bound, seen from the current activation: the identity
    /// of the frame and the place of the entry in it.
    fn find(&self, symbol_name: &str) -> (r: Option<(usize, usize)>)
        requires
            self.wf(),
        ensures
            r is Some <==> self@.owner(symbol_name@) is Some,
            r is Some ==> ({
                let (id, entry) = r->0;
                &&& self@.owner(symbol_name@) == Some(id)
                &&& self.scoped_table@.contains_key(id)
                &&& entry < self.scoped_table@[id].mapping.len()
                &&& entry_index(self.scoped_table@[id]@, symbol_name@) == Some(entry as int)
            }),
    {
        let stack = self.scope.curr_stack();
        let mut i: usize = stack.len();
        proof {
            assert(stack@.subrange(0, i as int) =~= stack@);
        }
        while i > 0
            invariant
                i <= stack.len(),
                stack@ == self@.scopes.active(),
                owner(stack@, self@.frames, symbol_name@) == owner(
                    stack@.subrange(0, i as int),
                    self@.frames,
                    symbol_name@,
                ),
            decreases i,
        {
            i = i - 1;
            proof {
                let longer = stack@.subrange(0, i + 1);
                assert(longer.drop_last() =~= stack@.subrange(0, i as int));
                assert(longer.last() == stack@[i as int]);
            }
            let id = stack[i].id;
            match self.scoped_table.get(&id) {
                Some(object) => {
                    proof {
                        assert(bindings_of(self@.frames, id) == object@);
                    }
                    match object.find(symbol_name) {
                        Some(entry) => {
                            return Some((id, entry));
                        },
                        None => {},
                    }
                },
                None => {
                    proof {
                        assert(bindings_of(self@.frames, id) == Seq::<(Seq<char>, Value)>::empty());
                        assert(entry_index(Seq::<(Seq<char>, Value)>::empty(), symbol_name@)
                            is None);
                    }
                },
            }
        }
        None
    }

    /// The value that a name resolves to.
    pub fn get(&self, symbol_name: &str) -> (r: Option<&Symbol>)
        requires
            self.wf(),
        ensures
            match self@.lookup(symbol_name@) {
                Some(v) => r is Some && r->0@ == v,
                None => r is None,
            },
    {
        match self.find(symbol_name) {
            Some((id, entry)) => match self.scoped_table.get(&id) {
                Some(object) => {
                    proof {
                        assert(object@[entry as int].1 == symbol_view(
                            object.mapping[entry as int].1,
                        ));
                    }
                    Some(&object.mapping[entry].1)
                },
                None => None,
            },
            None => None,
        }
    }

    /// The value that a name resolves to, to be written to. What is written
    /// is assigned to the name.
    pub fn get_mut(&mut self, symbol_name: &str) -> (r: Option<&mut Symbol>)
        requires
            old(self).wf(),
        ensures
            match old(self)@.lookup(symbol_name@) {
                Some(v) => r is Some && (*r->0)@ == v && final(self)@ == old(self)@.assigned(
                    symbol_name@,
                    (*final(r->0))@,
                ),
                None => r is None && final(self)@ == old(self)@,
            },
            final(self)@.wf(),
            final(self)@.scopes.counter <= usize::MAX,
    {
        match self.find(symbol_name) {
            Some((id, entry)) => {
                proof {
                    let table = self.scoped_table@;
                    let mapping = table[id].mapping@;
                    assert(table[id]@[entry as int].1 == symbol_view(mapping[entry as int].1));
                    lemma_entry_index(table[id]@, symbol_name@);
                    assert forall|w: Symbol, changed: Object|
                        #![trigger symbol_view(w), table.insert(id, changed)]
                        changed.mapping@ == mapping.update(
                            entry as int,
                            (mapping[entry as int].0, w),
                        ) implies frames_view(table.insert(id, changed)) == self@.assigned(
                        symbol_name@,
                        symbol_view(w),
                    ).frames && self@.assigned(symbol_name@, symbol_view(w)).wf() by {
                        let expected = self@.assigned(symbol_name@, symbol_view(w)).frames;
                        assert(changed@ =~= with_property(table[id]@, symbol_name@, symbol_view(w)));
                        assert(frames_view(table.insert(id, changed)) =~= expected);
                        lemma_assigned_wf(self@, symbol_name@, symbol_view(w));
                    }
                }
                match self.scoped_table.entry(id) {
                    Entry::Occupied(kept) => {
                        let object = kept.into_mut();
                        Some(&mut object.mapping[entry].1)
                    },
                    Entry::Vacant(_) => None,
                }
            },
            None => None,
        }
    }

    /// The frame that an assignment to a name writes to.
    pub fn target_of(&self, symbol_name: &str) -> (r: usize)
        requires
            self.wf(),
        ensures
            r == self@.target(symbol_name@),
    {
        match self.find(symbol_name) {
            Some((id, _)) => id,
            None => self.scope.curr().id,
        }
    }

    /// Assigns a value to a name: in the frame that the name is resolved in,
    /// or in the innermost frame where the name is not bound.
    pub fn set(&mut self, name: &str, symbol: Symbol)
        requires
            old(self).wf(),
        ensures
            final(self).wf(),
            final(self)@ == old(self)@.assigned(name@, symbol@),
    {
        let id = self.target_of(name);
        proof {
            lemma_target_is_kept(self@, name@);
            lemma_assigned_wf(self@, name@, symbol@);
        }
        match self.scoped_table.entry(id) {
            Entry::Occupied(kept) => {
                let object = kept.into_mut();
                object.set(name, symbol);
            },
            Entry::Vacant(_) => {},
        }
        proof {
            assert(self@.frames =~= old(self)@.assigned(name@, symbol@).frames);
        }
    }

    /// Opens a frame of a kind, with no bindings.
    pub fn push_scope(&mut self, kind: ScopeKind)
        requires
            old(self).wf(),
            kind != ScopeKind::Global,
            old(self)@.scopes.counter < usize::MAX,
        ensures
            final(self).wf(),
            final(self)@ == old(self)@.pushed(kind),
    {
        let scope_id = self.scope.push(kind);
        let symbols = Object { mapping: Vec::new() };
        proof {
            assert(symbols@ =~= Seq::empty());
        }
        self.scoped_table.insert(scope_id, symbols);
        proof {
            assert(self@.frames =~= old(self)@.pushed(kind).frames);
            lemma_pushed_wf(old(self)@, kind);
        }
    }

    /// Whether a frame can be opened: the identities have not run out.
    pub fn can_push(&self) -> (r: bool)
        ensures
            r == (self@.scopes.counter < usize::MAX),
    {
        self.scope.next_id() < usize::MAX
    }

    /// Whether the innermost frame can be closed: it is not the global one.
    pub fn can_pop(&self) -> (r: bool)
        requires
            self.wf(),
        ensures
            r == self@.scopes.can_pop(),
    {
        self.scope.curr_stack().len() >= 2
    }

    /// Closes the innermost frame and drops its bindings.
    pub fn pop_scope(&mut self)
        requires
            old(self).wf(),
            old(self)@.scopes.can_pop(),
        ensures
            final(self).wf(),
            final(self)@ == old(self)@.popped(),
    {
        let popped_scope = self.scope.pop();
        self.scoped_table.remove(&popped_scope.id);
        proof {
            assert(self@.frames =~= old(self)@.popped().frames);
            lemma_popped_wf(old(self)@);
        }
    }
}

/// The frame that an assignment writes to has bindings kept.
pub proof fn lemma_target_is_kept(t: TableView, name: Seq<char>)
    requires
        t.wf(),
    ensures
        t.frames.contains_key(t.target(name)),
{
    let active = t.scopes.active();
    let n = t.scopes.frames.len() - 1;
    lemma_owner(active, t.frames, name);
    let id = t.target(name);
    let j = if t.owner(name) is Some {
        choose|j: int| 0 <= j < active.len() && (#[trigger] active[j]).id == id
    } else {
        active.len() - 1
    };
    assert(active[j].id == id);
    if j == 0 {
        assert(t.scopes.frames[n][0] == global_scope());
    } else {
        assert(t.scopes.frames[n][j].id == id);
        assert(t.scopes.holds(id));
    }
}

/// An assignment keeps a table well-formed, and keeps bindings under the
/// identities that it found.
pub proof fn lemma_assigned_wf(t: TableView, name: Seq<char>, v: Value)
    requires
        t.wf(),
    ensures
        t.assigned(name, v).wf(),
        t.assigned(name, v).frames.dom() == t.frames.dom(),
{
    let u = t.assigned(name, v);
    lemma_target_is_kept(t, name);
    assert(u.frames.dom() =~= t.frames.dom());
    assert forall|id: usize| #[trigger] u.frames.contains_key(id) implies id == GLOBAL_SCOPE_ID
        || u.scopes.holds(id) by {
        assert(t.frames.contains_key(id));
    }
}

/// Opening a frame keeps a table well-formed. The frame is a new one:
/// nothing was kept under its identity.
pub proof fn lemma_pushed_wf(t: TableView, kind: ScopeKind)
    requires
        t.wf(),
        kind != ScopeKind::Global,
        t.scopes.counter < usize::MAX,
    ensures
        t.pushed(kind).wf(),
        !t.frames.contains_key(t.scopes.counter as usize),
{
    let u = t.pushed(kind);
    let fresh = t.scopes.counter as usize;
    lemma_push_then_pop(t.scopes, kind);
    assert forall|id: usize| #[trigger] u.scopes.holds(id) implies u.frames.contains_key(id) by {
        if id != fresh {
            lemma_holds_after_push(t.scopes, kind, id);
            assert(t.scopes.holds(id));
        }
    }
    assert forall|id: usize| #[trigger] u.frames.contains_key(id) implies id == GLOBAL_SCOPE_ID
        || u.scopes.holds(id) by {
        if id != fresh {
            assert(t.frames.contains_key(id));
            if id != GLOBAL_SCOPE_ID {
                assert(t.scopes.holds(id));
            }
        }
    }
    if t.frames.contains_key(fresh) {
        assert(fresh == GLOBAL_SCOPE_ID || t.scopes.holds(fresh));
    }
}

/// A frame that is open after another was opened is that one, or was open
/// before.
pub proof fn lemma_holds_after_push(s: ScopeStackView, kind: ScopeKind, id: usize)
    requires
        s.wf(),
        s.counter <= usize::MAX,
        s.pushed(kind).holds(id),
        id != s.counter,
    ensures
        s.holds(id),
{
    let t = s.pushed(kind);
    let (i, j) = choose|i: int, j: int|
        0 <= i < t.frames.len() && 1 <= j < t.frames[i].len() && #[trigger] t.frames[i][j].id == id;
    let n = s.frames.len() as int;
    if kind == ScopeKind::FunctionBlock {
        if i == n {
            assert(t.frames[n] == seq![global_scope(), Scope { id: s.counter as usize, kind }]);
            assert(j == 1);
        } else {
            assert(s.frames[i][j].id == id);
        }
    } else {
        if i == n - 1 {
            if j == s.frames[i].len() {
                assert(t.frames[i][j].id == s.counter as usize);
            } else {
                assert(s.frames[i][j].id == id);
            }
        } else {
            assert(s.frames[i][j].id == id);
        }
    }
}

/// Closing the innermost frame keeps a table well-formed, and leaves the
/// bindings of every other frame.
pub proof fn lemma_popped_wf(t: TableView)
    requires
        t.wf(),
        t.scopes.can_pop(),
    ensures
        t.popped().wf(),
        forall|id: usize|
            id != t.scopes.current().id ==> #[trigger] bindings_of(t.popped().frames, id)
                == bindings_of(t.frames, id),
        !t.popped().frames.contains_key(t.scopes.current().id),
{
    let u = t.popped();
    let gone = t.scopes.current().id;
    lemma_pop(t.scopes);
    assert(gone >= 1) by {
        let n = t.scopes.frames.len() - 1;
        let m = t.scopes.frames[n].len() - 1;
        assert(t.scopes.current() == t.scopes.frames[n][m]);
        assert(t.scopes.frames[n][m].id >= 1);
    }
    assert forall|id: usize| #[trigger] u.scopes.holds(id) implies u.frames.contains_key(id) by {
        assert(t.scopes.holds(id));
    }
    assert forall|id: usize| #[trigger] u.frames.contains_key(id) implies id == GLOBAL_SCOPE_ID
        || u.scopes.holds(id) by {
        assert(t.frames.contains_key(id));
        if id != GLOBAL_SCOPE_ID {
            assert(t.scopes.holds(id));
        }
    }
}

/// Setting a name in the frame of one identity leaves the bindings of every
/// other identity, and binds the name to the value in that frame.
pub proof fn lemma_with_binding(frames: FramesView, id: usize, name: Seq<char>, v: Value)
    requires
        frames.contains_key(id),
    ensures
        binds(with_binding(frames, id, name, v), id, name),
        property(bindings_of(with_binding(frames, id, name, v), id), name) == v,
        bindings_of(with_binding(frames, id, name, v), id) == with_property(
            bindings_of(frames, id),
            name,
            v,
        ),
        forall|other: usize|
            other != id ==> #[trigger] bindings_of(with_binding(frames, id, name, v), other)
                == bindings_of(frames, other),
{
    lemma_with_property(frames[id], name, v, name);
}

/// A property that is set to the value it has leaves the entries as they
/// are.
pub proof fn lemma_same_property(entries: Seq<(Seq<char>, Value)>, name: Seq<char>)
    requires
        entry_index(entries, name) is Some,
    ensures
        with_property(entries, name, property(entries, name)) == entries,
{
    lemma_entry_index(entries, name);
    assert(with_property(entries, name, property(entries, name)) =~= entries);
}

/// A name that is assigned the value it is bound to leaves the table as it
/// is.
pub proof fn lemma_reassign(t: TableView, name: Seq<char>)
    requires
        t.wf(),
        t.lookup(name) is Some,
    ensures
        t.assigned(name, t.lookup(name)->0) == t,
{
    let id = t.owner(name)->0;
    lemma_target_is_kept(t, name);
    lemma_owner(t.scopes.active(), t.frames, name);
    lemma_same_property(t.frames[id], name);
    assert(t.assigned(name, t.lookup(name)->0).frames =~= t.frames);
}

/// A name that is bound inside a block alone cannot be reached after the
/// block: where a name resolves to nothing, a block is opened, the name is
/// assigned in it and the block is closed, the name resolves to nothing
/// again, though inside the block it resolved to the value.
pub proof fn law_block_binding_ends_with_block(
    t: TableView,
    kind: ScopeKind,
    name: Seq<char>,
    v: Value,
)
    requires
        t.wf(),
        kind != ScopeKind::Global,
        t.scopes.counter < usize::MAX,
        kind != ScopeKind::FunctionBlock ==> t.lookup(name) is None,
        kind == ScopeKind::FunctionBlock ==> t.global(name) is None,
    ensures
        t.pushed(kind).assigned(name, v).lookup(name) == Some(v),
        t.pushed(kind).assigned(name, v).scopes.can_pop(),
        t.pushed(kind).assigned(name, v).popped().frames == t.frames,
        t.pushed(kind).assigned(name, v).popped().scopes.frames == t.scopes.frames,
        t.pushed(kind).assigned(name, v).popped().lookup(name) == t.lookup(name),
{
    let fresh = t.scopes.counter as usize;
    let p = t.pushed(kind);
    lemma_push_then_pop(t.scopes, kind);
    lemma_pushed_wf(t, kind);
    assert(bindings_of(p.frames, fresh) =~= Seq::empty());
    assert(!binds(p.frames, fresh, name));
    let active = p.scopes.active();
    assert(active.last().id == fresh);
    // Below the new frame the block sees what was seen before, or the
    // global frame alone.
    if kind == ScopeKind::FunctionBlock {
        assert(active =~= seq![global_scope(), Scope { id: fresh, kind }]);
        assert(active.drop_last() =~= seq![global_scope()]);
        assert(active.drop_last().drop_last() =~= Seq::empty());
        assert(bindings_of(p.frames, GLOBAL_SCOPE_ID) == bindings_of(t.frames, GLOBAL_SCOPE_ID));
        assert(active.drop_last().last() == global_scope());
        assert(owner(active.drop_last().drop_last(), p.frames, name) is None);
        assert(!binds(p.frames, GLOBAL_SCOPE_ID, name));
        assert(owner(active.drop_last(), p.frames, name) is None);
    } else {
        assert(active.drop_last() =~= t.scopes.active());
        assert forall|j: int| 0 <= j < t.scopes.active().len() implies bindings_of(
            t.frames,
            (#[trigger] t.scopes.active()[j]).id,
        ) == bindings_of(p.frames, t.scopes.active()[j].id) by {
            lemma_active_is_kept(t, j);
        }
        lemma_owner_depends(t.scopes.active(), t.frames, p.frames, name);
    }
    assert(p.owner(name) is None);
    assert(p.target(name) == fresh);
    let a = p.assigned(name, v);
    lemma_with_binding(p.frames, fresh, name, v);
    assert(a.owner(name) == Some(fresh));
    assert(a.popped().frames =~= t.frames);
}

/// The bindings of a frame of the current activation are kept, under an
/// identity that is below the counter.
pub proof fn lemma_active_is_kept(t: TableView, j: int)
    requires
        t.wf(),
        0 <= j < t.scopes.active().len(),
    ensures
        t.frames.contains_key(t.scopes.active()[j].id),
        t.scopes.active()[j].id < t.scopes.counter,
{
    let n = t.scopes.frames.len() - 1;
    let id = t.scopes.active()[j].id;
    if j == 0 {
        assert(t.scopes.frames[n][0] == global_scope());
    } else {
        assert(t.scopes.frames[n][j].id == id);
        assert(t.scopes.holds(id));
    }
}

/// The body of a function reaches the global bindings and nothing else of
/// its caller: in the frame that a call opens, a name resolves to what the
/// global frame gives it.
pub proof fn law_function_sees_globals_alone(t: TableView, name: Seq<char>)
    requires
        t.wf(),
        t.scopes.counter < usize::MAX,
    ensures
        t.pushed(ScopeKind::FunctionBlock).lookup(name) == t.global(name),
{
    let kind = ScopeKind::FunctionBlock;
    let fresh = t.scopes.counter as usize;
    let p = t.pushed(kind);
    lemma_push_then_pop(t.scopes, kind);
    lemma_pushed_wf(t, kind);
    let active = p.scopes.active();
    assert(active =~= seq![global_scope(), Scope { id: fresh, kind }]);
    assert(active.drop_last() =~= seq![global_scope()]);
    assert(active.drop_last().drop_last() =~= Seq::empty());
    assert(bindings_of(p.frames, fresh) =~= Seq::empty());
    assert(!binds(p.frames, fresh, name));
    assert(bindings_of(p.frames, GLOBAL_SCOPE_ID) == bindings_of(t.frames, GLOBAL_SCOPE_ID));
    assert(active.last().id == fresh);
    assert(active.drop_last().last() == global_scope());
    assert(owner(active.drop_last().drop_last(), p.frames, name) is None);
    assert(owner(active.drop_last(), p.frames, name) == if binds(
        p.frames,
        GLOBAL_SCOPE_ID,
        name,
    ) {
        Some(GLOBAL_SCOPE_ID)
    } else {
        None
    });
}

/// An assignment to a name that is bound updates the frame that the name is
/// resolved in, and no other: the name resolves to the new value in the same
/// frame, and the bindings of every other frame stay, those of the innermost
/// frame too unless the name is resolved there.
pub proof fn law_assignment_updates_defining_frame(t: TableView, name: Seq<char>, v: Value)
    requires
        t.wf(),
        t.owner(name) is Some,
    ensures
        t.assigned(name, v).owner(name) == t.owner(name),
        t.assigned(name, v).lookup(name) == Some(v),
        forall|id: usize|
            id != t.owner(name)->0 ==> #[trigger] bindings_of(t.assigned(name, v).frames, id)
                == bindings_of(t.frames, id),
{
    let id = t.owner(name)->0;
    lemma_target_is_kept(t, name);
    lemma_with_binding(t.frames, id, name, v);
    lemma_owner_after_assignment(t.scopes.active(), t.frames, id, name, v);
}

/// Where a name is resolved in a frame, it is resolved in the same frame
/// after it was set there.
pub proof fn lemma_owner_after_assignment(
    active: Seq<Scope>,
    frames: FramesView,
    id: usize,
    name: Seq<char>,
    v: Value,
)
    requires
        owner(active, frames, name) == Some(id),
        frames.contains_key(id),
    ensures
        owner(active, with_binding(frames, id, name, v), name) == Some(id),
    decreases active.len(),
{
    lemma_with_binding(frames, id, name, v);
    if active.len() > 0 {
        if binds(frames, active.last().id, name) {
        } else {
            assert(active.last().id != id) by {
                lemma_owner(active.drop_last(), frames, name);
                if active.last().id == id {
                    assert(binds(frames, id, name));
                }
            }
            lemma_owner_after_assignment(active.drop_last(), frames, id, name, v);
        }
    }
}

} // verus!
