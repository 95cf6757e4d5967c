use vstd::prelude::*;

verus! {

/// What opened a frame.
#[derive(Debug, Clone, Copy, PartialEq, Eq, Structural)]
pub enum ScopeKind {
    Global,
    FunctionBlock,
    ConditionalBlock,
    ForBlock,
}

/// A frame: its identity, under which its bindings are kept, and its kind.
#[derive(Debug, Clone, Copy, PartialEq, Eq, Structural)]
pub struct Scope {
    pub id: usize,
    pub kind: ScopeKind,
}

/// The identity of the global frame.
pub const GLOBAL_SCOPE_ID: usize = 0;

/// The global frame. It stands at the bottom of every activation.
pub open spec fn global_scope() -> Scope {
    Scope { id: GLOBAL_SCOPE_ID, kind: ScopeKind::Global }
}

/// The model of a scope stack: the activations from the oldest to the
/// current one, each with its frames from the global one up, and the
/// identity that the next frame gets.
pub struct ScopeStackView {
    pub frames: Seq<Seq<Scope>>,
    pub counter: nat,
}

impl ScopeStackView {
    /// The frames of the current activation: what names are resolved in.
    pub open spec fn active(self) -> Seq<Scope> {
        self.frames.last()
    }

    /// The innermost frame.
    pub open spec fn current(self) -> Scope {
        self.frames.last().last()
    }

    /// Whether a frame with this identity, other than the global one, is
    /// open in some activation.
    pub open spec fn holds(self, id: usize) -> bool {
        exists|i: int, j: int|
            0 <= i < self.frames.len() && 1 <= j < self.frames[i].len()
                && #[trigger] self.frames[i][j].id == id
    }

    /// Every activation stands on the global frame; every activation but the
    /// first has opened a frame; the frames above the global one are not
    /// global, and no two of them share an identity, which is below the
    /// counter.
    pub open spec fn wf(self) -> bool {
        &&& self.frames.len() >= 1
        &&& self.counter >= 1
        &&& forall|i: int|
            0 <= i < self.frames.len() ==> (#[trigger] self.frames[i]).len() >= 1
                && self.frames[i][0] == global_scope()
        &&& forall|i: int| 1 <= i < self.frames.len() ==> (#[trigger] self.frames[i]).len() >= 2
        &&& forall|i: int, j: int|
            0 <= i < self.frames.len() && 1 <= j < self.frames[i].len() ==> {
                &&& (#[trigger] self.frames[i][j]).kind != ScopeKind::Global
                &&& 1 <= self.frames[i][j].id < self.counter
            }
        &&& forall|i: int, j: int, k: int, l: int|
            0 <= i < self.frames.len() && 1 <= j < self.frames[i].len() && 0 <= k
                < self.frames.len() && 1 <= l < self.frames[k].len() && (i != k || j != l)
                ==> (#[trigger] self.frames[i][j]).id != (#[trigger] self.frames[k][l]).id
    }

    /// The stack after a frame of the given kind was opened. A function
    /// block starts an activation of its own, on the global frame; any other
    /// block goes on top of the current activation.
    pub open spec fn pushed(self, kind: ScopeKind) -> ScopeStackView {
        let frame = Scope { id: self.counter as usize, kind };
        ScopeStackView {
            frames: if kind == ScopeKind::FunctionBlock {
                self.frames.push(seq![global_scope(), frame])
            } else {
                self.frames.update(self.frames.len() - 1, self.frames.last().push(frame))
            },
            counter: self.counter + 1,
        }
    }

    /// Whether the innermost frame can be closed: it is not the global one.
    pub open spec fn can_pop(self) -> bool {
        self.frames.len() >= 1 && self.frames.last().len() >= 2
    }

    /// The stack after the innermost frame was closed. An activation that is
    /// left with its global frame alone ends, unless it is the first.
    pub open spec fn popped(self) -> ScopeStackView {
        ScopeStackView {
            frames: if self.frames.len() > 1 && self.frames.last().len() == 2 {
                self.frames.drop_last()
            } else {
                self.frames.update(self.frames.len() - 1, self.frames.last().drop_last())
            },
            counter: self.counter,
        }
    }
}

/// Opening a frame keeps a stack well-formed; the frame is the innermost one
/// then, and closing it gives the stack as it was, but for the counter.
pub proof fn lemma_push_then_pop(s: ScopeStackView, kind: ScopeKind)
    requires
        s.wf(),
        kind != ScopeKind::Global,
        s.counter < usize::MAX,
    ensures
        s.pushed(kind).wf(),
        s.pushed(kind).can_pop(),
        s.pushed(kind).current() == (Scope { id: s.counter as usize, kind }),
        s.pushed(kind).popped().frames == s.frames,
        !s.holds(s.counter as usize),
        s.pushed(kind).holds(s.counter as usize),
        forall|id: usize| s.holds(id) ==> s.pushed(kind).holds(id),
{
    let t = s.pushed(kind);
    let n = s.frames.len() as int;
    if kind == ScopeKind::FunctionBlock {
        assert(t.frames.drop_last() =~= s.frames);
        assert(t.frames[n][1].id == s.counter as usize);
        assert forall|id: usize| s.holds(id) implies t.holds(id) by {
            let (i, j) = choose|i: int, j: int|
                0 <= i < s.frames.len() && 1 <= j < s.frames[i].len() && #[trigger] s.frames[i][j].id
                    == id;
            assert(t.frames[i][j].id == id);
        }
    } else {
        assert(t.frames.last().drop_last() =~= s.frames.last());
        assert(t.frames.update(n - 1, s.frames.last()) =~= s.frames);
        assert(t.frames[n - 1][s.frames[n - 1].len() as int].id == s.counter as usize);
        assert forall|id: usize| s.holds(id) implies t.holds(id) by {
            let (i, j) = choose|i: int, j: int|
                0 <= i < s.frames.len() && 1 <= j < s.frames[i].len() && #[trigger] s.frames[i][j].id
                    == id;
            assert(t.frames[i][j].id == id);
        }
    }
}

/// Closing the innermost frame keeps a stack well-formed, and closes that
/// frame alone.
pub proof fn lemma_pop(s: ScopeStackView)
    requires
        s.wf(),
        s.can_pop(),
    ensures
        s.popped().wf(),
        s.holds(s.current().id),
        !s.popped().holds(s.current().id),
        forall|id: usize| s.holds(id) && id != s.current().id ==> s.popped().holds(id),
        forall|id: usize| s.popped().holds(id) ==> s.holds(id),
{
    let t = s.popped();
    let n = s.frames.len() as int;
    let m = s.frames.last().len() as int;
    assert(s.frames[n - 1][m - 1].id == s.current().id);
    assert forall|id: usize| s.holds(id) && id != s.current().id implies t.holds(id) by {
        let (i, j) = choose|i: int, j: int|
            0 <= i < s.frames.len() && 1 <= j < s.frames[i].len() && #[trigger] s.frames[i][j].id
                == id;
        if i == n - 1 && j == m - 1 {
        } else if i == n - 1 {
            assert(t.frames[i][j].id == id);
        } else {
            assert(t.frames[i][j].id == id);
        }
    }
    assert forall|id: usize| t.holds(id) implies s.holds(id) by {
        let (i, j) = choose|i: int, j: int|
            0 <= i < t.frames.len() && 1 <= j < t.frames[i].len() && #[trigger] t.frames[i][j].id
                == id;
        assert(s.frames[i][j].id == id);
    }
    if t.holds(s.current().id) {
        let (i, j) = choose|i: int, j: int|
            0 <= i < t.frames.len() && 1 <= j < t.frames[i].len() && #[trigger] t.frames[i][j].id
                == s.current().id;
        assert(s.frames[i][j].id == s.frames[n - 1][m - 1].id);
    }
}

/// The frames that are open, as a stack of activations.
pub struct ScopeStack {
    scope: Vec<Vec<Scope>>,
    counter: usize,
}

impl View for ScopeStack {
    type V = ScopeStackView;

    closed spec fn view(&self) -> ScopeStackView {
        ScopeStackView {
            frames: Seq::new(self.scope@.len(), |i: int| self.scope@[i]@),
            counter: self.counter as nat,
        }
    }
}

impl ScopeStack {
    /// Whether the stack is well-formed.
    pub open spec fn wf(&self) -> bool {
        self@.wf() && self@.counter <= usize::MAX
    }

    /// A stack with the global frame alone.
    pub fn new() -> (s: ScopeStack)
        ensures
            s.wf(),
            s@.frames == seq![seq![global_scope()]],
            s@.counter == 1,
    {
        let mut root: Vec<Scope> = Vec::new();
        root.push(Scope { id: GLOBAL_SCOPE_ID, kind: ScopeKind::Global });
        let mut scope: Vec<Vec<Scope>> = Vec::new();
        scope.push(root);
        let s = ScopeStack { scope, counter: GLOBAL_SCOPE_ID + 1 };
        proof {
            assert(s@.frames =~= seq![seq![global_scope()]]);
            assert(s@.frames[0] =~= seq![global_scope()]);
        }
        s
    }

    /// The identity that the next frame gets.
    pub fn next_id(&self) -> (r: usize)
        ensures
            r == self@.counter,
    {
        self.counter
    }

    /// The frames of the current activation, from the global one up.
    pub fn curr_stack(&self) -> (r: &Vec<Scope>)
        requires
            self.wf(),
        ensures
            r@ == self@.active(),
            r@.len() >= 1,
    {
        &self.scope[self.scope.len() - 1]
    }

    /// The innermost frame.
    pub fn curr(&self) -> (r: &Scope)
        requires
            self.wf(),
        ensures
            *r == self@.current(),
    {
        let stack = self.curr_stack();
        &stack[stack.len() - 1]
    }

    /// Starts an activation with a frame of the given kind.
    fn push_scope_stack(&mut self, with: ScopeKind) -> (id: usize)
        requires
            old(self).wf(),
        ensures
            id == old(self)@.counter,
            final(self).counter == old(self).counter,
            final(self)@.frames == old(self)@.frames.push(
                seq![global_scope(), Scope { id, kind: with }],
            ),
    {
        let id = self.counter;
        let mut stack: Vec<Scope> = Vec::new();
        stack.push(Scope { id: GLOBAL_SCOPE_ID, kind: ScopeKind::Global });
        stack.push(Scope { id, kind: with });
        self.scope.push(stack);
        proof {
            assert(stack@ =~= seq![global_scope(), Scope { id, kind: with }]);
            assert(self@.frames =~= old(self)@.frames.push(
                seq![global_scope(), Scope { id, kind: with }],
            ));
        }
        id
    }

    /// Opens a frame of the given kind on the current activation.
    fn push_scope(&mut self, with: ScopeKind) -> (id: usize)
        requires
            old(self).wf(),
        ensures
            id == old(self)@.counter,
            final(self).counter == old(self).counter,
            final(self)@.frames == old(self)@.frames.update(
                old(self)@.frames.len() - 1,
                old(self)@.frames.last().push(Scope { id, kind: with }),
            ),
    {
        let id = self.counter;
        let mut stack = match self.scope.pop() {
            Some(stack) => stack,
            None => Vec::new(),
        };
        stack.push(Scope { id, kind: with });
        self.scope.push(stack);
        proof {
            assert(self@.frames =~= old(self)@.frames.update(
                old(self)@.frames.len() - 1,
                old(self)@.frames.last().push(Scope { id, kind: with }),
            ));
        }
        id
    }

    /// Opens a frame and returns its identity. A function block starts an
    /// activation of its own, which sees the global frame and nothing else
    /// of its caller; a conditional block or a loop goes on top of the
    /// current activation.
    pub fn push(&mut self, kind: ScopeKind) -> (id: usize)
        requires
            old(self).wf(),
            kind != ScopeKind::Global,
            old(self)@.counter < usize::MAX,
        ensures
            final(self).wf(),
            id == old(self)@.counter,
            final(self)@ == old(self)@.pushed(kind),
    {
        let id = match kind {
            ScopeKind::FunctionBlock => self.push_scope_stack(kind),
            _ => self.push_scope(kind),
        };
        self.counter = self.counter + 1;
        proof {
            lemma_push_then_pop(old(self)@, kind);
            assert(self@.frames =~= old(self)@.pushed(kind).frames);
        }
        id
    }

    /// Closes the innermost frame and returns it. An activation that is left
    /// with its global frame alone ends with it.
    pub fn pop(&mut self) -> (r: Scope)
        requires
            old(self).wf(),
            old(self)@.can_pop(),
        ensures
            final(self).wf(),
            r == old(self)@.current(),
            final(self)@ == old(self)@.popped(),
    {
        let mut stack = match self.scope.pop() {
            Some(stack) => stack,
            None => Vec::new(),
        };
        let popped = match stack.pop() {
            Some(s) => s,
            None => Scope { id: GLOBAL_SCOPE_ID, kind: ScopeKind::Global },
        };
        if self.scope.len() == 0 || stack.len() > 1 {
            self.scope.push(stack);
        }
        proof {
            lemma_pop(old(self)@);
            assert(self@.frames =~= old(self)@.popped().frames);
        }
        popped
    }
}

} // verus!
