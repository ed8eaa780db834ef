use vstd::prelude::*;

use crate::error::{ErrV, EvalError};
use crate::expression::ExprV;
use crate::memorycell::{CellV, MemoryCell};
use crate::value::{Identifier, Value};

verus! {

/// The map a sequence of bindings denotes; a later entry would win, but the
/// well-formedness invariant keeps the names distinct.
pub open spec fn entries_map(s: Seq<(Identifier, MemoryCell)>) -> Map<Seq<char>, CellV>
    decreases s.len(),
{
    if s.len() == 0 {
        Map::empty()
    } else {
        entries_map(s.drop_last()).insert(s.last().0@, s.last().1@)
    }
}

/// A binding sequence has each name at most once.
pub open spec fn distinct_names(s: Seq<(Identifier, MemoryCell)>) -> bool {
    forall|j: int, k: int|
        0 <= j < k < s.len() ==> #[trigger] s[j].0@ != #[trigger] s[k].0@
}

proof fn lemma_entries_map_has_key(s: Seq<(Identifier, MemoryCell)>, name: Seq<char>)
    ensures
        entries_map(s).contains_key(name) <==> (exists|i: int|
            0 <= i < s.len() && #[trigger] s[i].0@ == name),
    decreases s.len(),
{
    if s.len() > 0 {
        lemma_entries_map_has_key(s.drop_last(), name);
        if s.last().0@ == name {
            assert(s[s.len() - 1].0@ == name);
        } else {
            if exists|i: int| 0 <= i < s.len() && #[trigger] s[i].0@ == name {
                let i = choose|i: int| 0 <= i < s.len() && #[trigger] s[i].0@ == name;
                assert(s.drop_last()[i].0@ == name);
            }
            if entries_map(s.drop_last()).contains_key(name) {
                let i = choose|i: int|
                    0 <= i < s.drop_last().len() && #[trigger] s.drop_last()[i].0@ == name;
                assert(s[i].0@ == name);
            }
        }
    }
}

proof fn lemma_entries_map_get(s: Seq<(Identifier, MemoryCell)>, i: int)
    requires
        0 <= i < s.len(),
        distinct_names(s),
    ensures
        entries_map(s).contains_key(s[i].0@),
        entries_map(s)[s[i].0@] == s[i].1@,
    decreases s.len(),
{
    if i == s.len() - 1 {
        assert(s.last() == s[i]);
    } else {
        assert(distinct_names(s.drop_last())) by {
            assert(forall|j: int, k: int|
                0 <= j < k < s.len() - 1 ==> s.drop_last()[j] == s[j] && s.drop_last()[k] == s[k]);
        }
        lemma_entries_map_get(s.drop_last(), i);
        assert(s.drop_last()[i] == s[i]);
        assert(s[i].0@ != s[s.len() - 1].0@);
    }
}

/// One lexical scope: a mapping from identifier to memory cell, with each
/// name bound at most once. In specifications a namespace is a `Map` from
/// name to cell.
#[derive(Debug)]
pub struct NameSpace {
    entries: Vec<(Identifier, MemoryCell)>,
}

impl View for NameSpace {
    type V = Map<Seq<char>, CellV>;

    closed spec fn view(&self) -> Map<Seq<char>, CellV> {
        entries_map(self.entries@)
    }
}

impl NameSpace {
    /// Each name is bound at most once; every method keeps this.
    pub closed spec fn wf(&self) -> bool {
        distinct_names(self.entries@)
    }

    /// Makes an empty scope.
    pub fn new() -> (ns: NameSpace)
        ensures
            ns@ == Map::<Seq<char>, CellV>::empty(),
            ns.wf(),
    {
        NameSpace { entries: Vec::new() }
    }

    /// Whether `id` is bound in this scope.
    #[verifier::loop_isolation(false)]
    pub fn contains_key(&self, id: &Identifier) -> (r: bool)
        ensures
            r == self@.contains_key(id@),
    {
        proof {
            lemma_entries_map_has_key(self.entries@, id@);
        }
        let n = self.entries.len();
        let mut i: usize = 0;
        while i < n
            invariant
                i <= n,
                forall|j: int| 0 <= j < i ==> #[trigger] self.entries@[j].0@ != id@,
            decreases n - i,
        {
            if self.entries[i].0 == *id {
                return true;
            }
            i = i + 1;
        }
        false
    }

    /// Binds `id` to `memcell` when `id` is not yet bound here; fails with
    /// `AlreadyDefined` and changes nothing otherwise.
    pub fn declare(&mut self, id: &Identifier, memcell: MemoryCell) -> (r: Result<(), EvalError>)
        requires
            old(self).wf(),
        ensures
            final(self).wf(),
            old(self)@.contains_key(id@) ==> (r matches Err(e) && e@ == ErrV::AlreadyDefined(id@))
                && final(self)@ == old(self)@,
            !old(self)@.contains_key(id@) ==> r is Ok && final(self)@ == old(self)@.insert(
                id@,
                memcell@,
            ),
    {
        if self.contains_key(id) {
            Err(EvalError::AlreadyDefined(id.clone()))
        } else {
            proof {
                lemma_entries_map_has_key(self.entries@, id@);
            }
            let ghost old_entries = self.entries@;
            self.entries.push((id.clone(), memcell));
            proof {
                assert(self.entries@.drop_last() =~= old_entries);
                assert forall|j: int, k: int|
                    0 <= j < k < self.entries@.len() implies #[trigger] self.entries@[j].0@
                    != #[trigger] self.entries@[k].0@ by {
                    if k < self.entries@.len() - 1 {
                        assert(old_entries[j] == self.entries@[j]);
                        assert(old_entries[k] == self.entries@[k]);
                    } else {
                        assert(old_entries[j] == self.entries@[j]);
                    }
                }
            }
            Ok(())
        }
    }

    /// Looks `id` up in this scope: a copy of the bound value, or
    /// `Undefined` when `id` is not bound here.
    #[verifier::loop_isolation(false)]
    pub fn find(&self, id: &Identifier) -> (r: Result<Value, EvalError>)
        requires
            self.wf(),
        ensures
            self@.contains_key(id@) ==> (r matches Ok(v) && v@ == self@[id@].value),
            !self@.contains_key(id@) ==> (r matches Err(e) && e@ == ErrV::Undefined(id@)),
    {
        proof {
            lemma_entries_map_has_key(self.entries@, id@);
        }
        let n = self.entries.len();
        let mut i: usize = 0;
        while i < n
            invariant
                i <= n,
                forall|j: int| 0 <= j < i ==> #[trigger] self.entries@[j].0@ != id@,
            decreases n - i,
        {
            if self.entries[i].0 == *id {
                proof {
                    lemma_entries_map_get(self.entries@, i as int);
                }
                return match self.entries[i].1.get_value() {
                    Ok(v) => Ok(v),
                    Err(e) => Err(e),
                };
            }
            i = i + 1;
        }
        Err(EvalError::Undefined(id.clone()))
    }

    /// Overwrites the value bound to `id`: fails with `Undefined` when `id`
    /// is not bound here, with `NotMutable` when its cell is immutable, and
    /// changes nothing in either failing case.
    #[verifier::loop_isolation(false)]
    pub fn set(&mut self, id: &Identifier, value: Value) -> (r: Result<(), EvalError>)
        requires
            old(self).wf(),
        ensures
            final(self).wf(),
            old(self)@.contains_key(id@) && old(self)@[id@].mutable ==> r is Ok && final(self)@
                == old(self)@.insert(id@, (CellV { mutable: true, value: value@ })),
            old(self)@.contains_key(id@) && !old(self)@[id@].mutable ==> (r matches Err(e) && e@
                == ErrV::NotMutable(None::<ExprV>)) && final(self)@ == old(self)@,
            !old(self)@.contains_key(id@) ==> (r matches Err(e) && e@ == ErrV::Undefined(id@))
                && final(self)@ == old(self)@,
    {
        proof {
            lemma_entries_map_has_key(self.entries@, id@);
        }
        let n = self.entries.len();
        let mut i: usize = 0;
        while i < n
            invariant
                i <= n,
                self == old(self),
                forall|j: int| 0 <= j < i ==> #[trigger] self.entries@[j].0@ != id@,
            decreases n - i,
        {
            if self.entries[i].0 == *id {
                proof {
                    lemma_entries_map_get(self.entries@, i as int);
                }
                if self.entries[i].1.is_mutable() {
                    let ghost old_entries = self.entries@;
                    let pair = self.entries.remove(i);
                    self.entries.insert(i, (pair.0, MemoryCell::new(true, value)));
                    proof {
                        assert(self.entries@ =~= old_entries.update(
                            i as int,
                            (self.entries@[i as int].0, self.entries@[i as int].1),
                        ));
                        lemma_entries_map_update(old_entries, i as int, self.entries@[i as int]);
                        assert(self.entries@[i as int].0@ == id@);
                        assert(final(self)@ =~= old(self)@.insert(
                            id@,
                            (CellV { mutable: true, value: value@ }),
                        ));
                    }
                    return Ok(());
                } else {
                    return Err(EvalError::NotMutable(None));
                }
            }
            i = i + 1;
        }
        Err(EvalError::Undefined(id.clone()))
    }
}

proof fn lemma_entries_map_update(
    s: Seq<(Identifier, MemoryCell)>,
    i: int,
    p: (Identifier, MemoryCell),
)
    requires
        0 <= i < s.len(),
        distinct_names(s),
        p.0@ == s[i].0@,
    ensures
        entries_map(s.update(i, p)) =~= entries_map(s).insert(s[i].0@, p.1@),
        distinct_names(s.update(i, p)),
    decreases s.len(),
{
    let t = s.update(i, p);
    assert(distinct_names(t)) by {
        assert(forall|j: int|
            0 <= j < s.len() ==> #[trigger] t[j].0@ == s[j].0@);
    }
    if i == s.len() - 1 {
        assert(t.drop_last() =~= s.drop_last());
        assert(t.last() == p);
    } else {
        assert(distinct_names(s.drop_last())) by {
            assert(forall|j: int|
                0 <= j < s.len() - 1 ==> #[trigger] s.drop_last()[j] == s[j]);
        }
        assert(t.drop_last() =~= s.drop_last().update(i, p));
        assert(s.drop_last()[i] == s[i]);
        lemma_entries_map_update(s.drop_last(), i, p);
        assert(t.last() == s.last());
        assert(s.last().0@ != s[i].0@);
    }
}

} // verus!
