use vstd::prelude::*;

use crate::error::{ErrV, EvalError};
use crate::expression::ExprV;
use crate::memorycell::{CellV, MemoryCell};
use crate::namespace::NameSpace;
use crate::value::{Address, AddressV, Identifier, Value, ValueV};

verus! {

/// The mathematical form of a scope stack: the frames' maps, outermost
/// first, innermost last.
pub type StackV = Seq<Map<Seq<char>, CellV>>;

/// The innermost frame index that binds `name`, or -1 when none does.
pub open spec fn stack_frame_of(stk: StackV, name: Seq<char>) -> int
    decreases stk.len(),
{
    if stk.len() == 0 {
        -1
    } else if stk.last().contains_key(name) {
        stk.len() - 1
    } else {
        stack_frame_of(stk.drop_last(), name)
    }
}

/// Whether any frame binds `name`.
pub open spec fn stack_has(stk: StackV, name: Seq<char>) -> bool {
    stack_frame_of(stk, name) >= 0
}

/// The cell of the innermost binding of `name`, if any.
pub open spec fn stack_lookup(stk: StackV, name: Seq<char>) -> Option<CellV> {
    if stack_has(stk, name) {
        Some(stk[stack_frame_of(stk, name)][name])
    } else {
        None
    }
}

/// What declaring `name` into the innermost frame yields.
pub open spec fn stack_declare(stk: StackV, name: Seq<char>, cell: CellV) -> StackV {
    stk.update(stk.len() - 1, stk.last().insert(name, cell))
}

/// What overwriting the innermost binding of `name` yields; defined when
/// some frame binds `name`, and the binding accepts writes.
pub open spec fn stack_set(stk: StackV, name: Seq<char>, value: ValueV) -> StackV {
    let f = stack_frame_of(stk, name);
    stk.update(f, stk[f].insert(name, CellV { mutable: true, value }))
}

/// `stack_frame_of` finds the innermost frame binding the name: the frame it
/// names binds it, every frame above does not, and -1 means no frame does.
pub proof fn lemma_stack_frame_of(stk: StackV, name: Seq<char>)
    ensures
        -1 <= stack_frame_of(stk, name) < stk.len(),
        stack_frame_of(stk, name) >= 0 ==> stk[stack_frame_of(stk, name)].contains_key(name),
        forall|j: int|
            stack_frame_of(stk, name) < j < stk.len() ==> !(#[trigger] stk[j]).contains_key(name),
    decreases stk.len(),
{
    if stk.len() > 0 {
        lemma_stack_frame_of(stk.drop_last(), name);
        if !stk.last().contains_key(name) {
            assert forall|j: int|
                stack_frame_of(stk, name) < j < stk.len() implies !(#[trigger] stk[j]).contains_key(
                name,
            ) by {
                if j < stk.len() - 1 {
                    assert(stk.drop_last()[j] == stk[j]);
                }
            }
        }
    }
}

/// The frame index below which every frame is unchanged pins the lookup: if
/// frame `j` binds the name and no frame above does, it is the one found.
pub proof fn lemma_stack_frame_of_is(stk: StackV, name: Seq<char>, j: int)
    requires
        0 <= j < stk.len(),
        stk[j].contains_key(name),
        forall|k: int| j < k < stk.len() ==> !(#[trigger] stk[k]).contains_key(name),
    ensures
        stack_frame_of(stk, name) == j,
    decreases stk.len(),
{
    if j == stk.len() - 1 {
        assert(stk.last() == stk[j]);
    } else {
        assert(!stk.last().contains_key(name));
        assert(stk.drop_last()[j] == stk[j]);
        assert forall|k: int|
            j < k < stk.drop_last().len() implies !(#[trigger] stk.drop_last()[k]).contains_key(
            name,
        ) by {
            assert(stk.drop_last()[k] == stk[k]);
        }
        lemma_stack_frame_of_is(stk.drop_last(), name, j);
    }
}

/// The ordered stack of active scopes, innermost last: the single mutable
/// context threaded through evaluation. In specifications it is the sequence
/// of its frames' maps.
#[derive(Debug)]
pub struct NameSpaceStack {
    frames: Vec<NameSpace>,
}

impl View for NameSpaceStack {
    type V = StackV;

    closed spec fn view(&self) -> StackV {
        Seq::new(self.frames@.len(), |i: int| self.frames@[i]@)
    }
}

impl NameSpaceStack {
    /// Every frame keeps its names distinct.
    pub closed spec fn wf(&self) -> bool {
        forall|i: int| 0 <= i < self.frames@.len() ==> (#[trigger] self.frames@[i]).wf()
    }

    /// Makes an empty stack; the caller pushes the outermost scope before
    /// evaluating anything.
    pub fn new() -> (nss: NameSpaceStack)
        ensures
            nss@.len() == 0,
            nss.wf(),
    {
        NameSpaceStack { frames: Vec::new() }
    }

    /// How many scopes are open.
    pub fn depth(&self) -> (n: usize)
        ensures
            n == self@.len(),
    {
        self.frames.len()
    }

    /// Opens `ns` as the new innermost scope.
    pub fn push(&mut self, ns: NameSpace)
        requires
            old(self).wf(),
            ns.wf(),
        ensures
            final(self).wf(),
            final(self)@ == old(self)@.push(ns@),
    {
        self.frames.push(ns);
        proof {
            assert(self@ =~= old(self)@.push(ns@));
        }
    }

    /// Closes the innermost scope, discarding its bindings.
    pub fn pop(&mut self)
        requires
            old(self).wf(),
            old(self)@.len() > 0,
        ensures
            final(self).wf(),
            final(self)@ == old(self)@.drop_last(),
    {
        let _ = self.frames.pop();
        proof {
            assert(self@ =~= old(self)@.drop_last());
        }
    }

    /// Looks `id` up innermost-first: a copy of the innermost bound value,
    /// or `Undefined` when no scope binds `id`.
    #[verifier::loop_isolation(false)]
    pub fn find(&self, id: &Identifier) -> (r: Result<Value, EvalError>)
        requires
            self.wf(),
        ensures
            (match stack_lookup(self@, id@) {
                Some(cell) => r matches Ok(v) && v@ == cell.value,
                None => r matches Err(e) && e@ == ErrV::Undefined(id@),
            }),
    {
        proof {
            lemma_stack_frame_of(self@, id@);
        }
        let mut j = self.frames.len();
        while j > 0
            invariant
                j <= self@.len(),
                forall|k: int| j <= k < self@.len() ==> !(#[trigger] self@[k]).contains_key(id@),
            decreases j,
        {
            j = j - 1;
            if self.frames[j].contains_key(id) {
                proof {
                    lemma_stack_frame_of_is(self@, id@, j as int);
                }
                return self.frames[j].find(id);
            }
        }
        Err(EvalError::Undefined(id.clone()))
    }

    /// Declares `id` in the innermost scope: fails with `AlreadyDefined`
    /// when that scope already binds `id` (shadowing an outer scope is
    /// fine), and changes nothing then.
    pub fn declare(&mut self, id: &Identifier, mutable: bool, value: &Value) -> (r: Result<
        (),
        EvalError,
    >)
        requires
            old(self).wf(),
            old(self)@.len() > 0,
        ensures
            final(self).wf(),
            old(self)@.last().contains_key(id@) ==> (r matches Err(e) && e@
                == ErrV::AlreadyDefined(id@)) && final(self)@ == old(self)@,
            !old(self)@.last().contains_key(id@) ==> r is Ok && final(self)@ == stack_declare(
                old(self)@,
                id@,
                CellV { mutable, value: value@ },
            ),
    {
        let cell = MemoryCell::new(mutable, value.clone());
        let n = self.frames.len();
        let mut top = match self.frames.pop() {
            Some(ns) => ns,
            None => {
                return Err(EvalError::Undefined(id.clone()));
            },
        };
        let r = top.declare(id, cell);
        self.frames.push(top);
        proof {
            if old(self)@.last().contains_key(id@) {
                assert(self@ =~= old(self)@);
            } else {
                assert(self@ =~= stack_declare(old(self)@, id@, CellV { mutable, value: value@ }));
            }
        }
        r
    }

    /// Overwrites the innermost binding of `id`: fails with `Undefined` when
    /// no scope binds `id`, with `NotMutable` when the innermost binding is
    /// immutable, and changes nothing in either failing case.
    #[verifier::loop_isolation(false)]
    pub fn set(&mut self, id: &Identifier, value: Value) -> (r: Result<(), EvalError>)
        requires
            old(self).wf(),
        ensures
            final(self).wf(),
            (match stack_lookup(old(self)@, id@) {
                None => (r matches Err(e) && e@ == ErrV::Undefined(id@)) && final(self)@ == old(
                    self,
                )@,
                Some(cell) => {
                    &&& cell.mutable ==> r is Ok && final(self)@ == stack_set(
                        old(self)@,
                        id@,
                        value@,
                    )
                    &&& !cell.mutable ==> (r matches Err(e) && e@ == ErrV::NotMutable(
                        None::<ExprV>,
                    )) && final(self)@ == old(self)@
                },
            }),
    {
        proof {
            lemma_stack_frame_of(self@, id@);
        }
        let mut j = self.frames.len();
        while j > 0
            invariant
                j <= self@.len(),
                self == old(self),
                forall|k: int| j <= k < self@.len() ==> !(#[trigger] self@[k]).contains_key(id@),
            decreases j,
        {
            j = j - 1;
            if self.frames[j].contains_key(id) {
                proof {
                    lemma_stack_frame_of_is(self@, id@, j as int);
                }
                let ghost old_frames = self.frames@;
                let mut frame = self.frames.remove(j);
                let r = frame.set(id, value);
                self.frames.insert(j, frame);
                proof {
                    assert(self.frames@ =~= old_frames.update(j as int, self.frames@[j as int]));
                    let cell = stack_lookup(old(self)@, id@)->Some_0;
                    if cell.mutable {
                        assert(self@ =~= stack_set(old(self)@, id@, value@));
                    } else {
                        assert(self@ =~= old(self)@);
                    }
                }
                return r;
            }
        }
        Err(EvalError::Undefined(id.clone()))
    }

    /// The address of the innermost binding of `id`: the frame index and the
    /// name; `Undefined` when no scope binds `id`.
    #[verifier::loop_isolation(false)]
    pub fn get_address(&self, id: &Identifier) -> (r: Result<Address, EvalError>)
        requires
            self.wf(),
        ensures
            stack_has(self@, id@) ==> (r matches Ok(a) && a@ == (AddressV {
                frame: stack_frame_of(self@, id@),
                name: id@,
            })),
            !stack_has(self@, id@) ==> (r matches Err(e) && e@ == ErrV::Undefined(id@)),
    {
        proof {
            lemma_stack_frame_of(self@, id@);
        }
        let mut j = self.frames.len();
        while j > 0
            invariant
                j <= self@.len(),
                forall|k: int| j <= k < self@.len() ==> !(#[trigger] self@[k]).contains_key(id@),
            decreases j,
        {
            j = j - 1;
            if self.frames[j].contains_key(id) {
                proof {
                    lemma_stack_frame_of_is(self@, id@, j as int);
                }
                return Ok(Address { frame: j, name: id.clone() });
            }
        }
        Err(EvalError::Undefined(id.clone()))
    }
}

} // verus!
