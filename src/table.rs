//! The transition table: a finite map from (state, cell) to what follows.
use vstd::prelude::*;
use crate::head::Direction;
use crate::symbol::{same_cell, Tapeable};

verus! {

/// A state of the machine.
pub type State = usize;

/// What a transition starts from: the current state and the cell under the
/// head.
pub type Cause<V> = (State, Option<V>);

/// What a transition does: the next state, the cell to write, and where the
/// head moves.
pub type Effect<V> = (State, Option<V>, Direction);

/// The map that a list of bindings gives, later bindings of a cause
/// replacing earlier ones.
pub open spec fn table_of<V>(s: Seq<(Cause<V>, Effect<V>)>) -> Map<Cause<V>, Effect<V>>
    decreases s.len(),
{
    if s.len() == 0 {
        Map::empty()
    } else {
        table_of(s.drop_last()).insert(s.last().0, s.last().1)
    }
}

/// Whether no cause is bound twice in `s`.
pub open spec fn causes_unique<V>(s: Seq<(Cause<V>, Effect<V>)>) -> bool {
    forall|i: int, j: int| 0 <= i < j < s.len() ==> (#[trigger] s[i]).0 != (#[trigger] s[j]).0
}

/// A cause is bound in the map exactly where some binding of the list names it.
proof fn lemma_table_contains<V>(s: Seq<(Cause<V>, Effect<V>)>, k: Cause<V>)
    ensures
        table_of(s).contains_key(k) <==> exists|i: int| 0 <= i < s.len() && (#[trigger] s[i]).0 == k,
    decreases s.len(),
{
    if s.len() > 0 {
        lemma_table_contains(s.drop_last(), k);
        if table_of(s.drop_last()).contains_key(k) {
            let i = choose|i: int| 0 <= i < s.drop_last().len() && (#[trigger] s.drop_last()[i]).0 == k;
            assert(s[i].0 == k);
        }
        if exists|i: int| 0 <= i < s.len() && (#[trigger] s[i]).0 == k {
            let i = choose|i: int| 0 <= i < s.len() && (#[trigger] s[i]).0 == k;
            if i < s.len() - 1 {
                assert(s.drop_last()[i].0 == k);
            }
        }
    }
}

/// Where causes are unique, each binding of the list is what the map holds.
proof fn lemma_table_at<V>(s: Seq<(Cause<V>, Effect<V>)>, i: int)
    requires
        causes_unique(s),
        0 <= i < s.len(),
    ensures
        table_of(s).contains_key(s[i].0),
        table_of(s)[s[i].0] == s[i].1,
    decreases s.len(),
{
    if i < s.len() - 1 {
        let t = s.drop_last();
        assert(t[i] == s[i]);
        assert(causes_unique(t)) by {
            assert forall|a: int, b: int| 0 <= a < b < t.len() implies (#[trigger] t[a]).0 != (#[trigger] t[b]).0 by {
                assert(t[a] == s[a] && t[b] == s[b]);
            }
        }
        lemma_table_at(t, i);
        assert(s[i].0 != s[s.len() - 1].0);
    }
}

/// Where causes are unique, rebinding the cause of one binding in place is
/// inserting it into the map.
proof fn lemma_table_update<V>(s: Seq<(Cause<V>, Effect<V>)>, i: int, e: Effect<V>)
    requires
        causes_unique(s),
        0 <= i < s.len(),
    ensures
        table_of(s.update(i, (s[i].0, e))) == table_of(s).insert(s[i].0, e),
    decreases s.len(),
{
    let k = s[i].0;
    let u = s.update(i, (k, e));
    let t = s.drop_last();
    if i == s.len() - 1 {
        assert(u.drop_last() =~= t);
        assert(table_of(u) =~= table_of(s).insert(k, e));
    } else {
        assert(causes_unique(t)) by {
            assert forall|a: int, b: int| 0 <= a < b < t.len() implies (#[trigger] t[a]).0 != (#[trigger] t[b]).0 by {
                assert(t[a] == s[a] && t[b] == s[b]);
            }
        }
        assert(t[i] == s[i]);
        lemma_table_update(t, i, e);
        assert(u.drop_last() =~= t.update(i, (k, e)));
        assert(s.last().0 != k);
        assert(u.last() == s.last());
        assert(table_of(u) =~= table_of(s).insert(k, e));
    }
}

/// A transition table: each cause is bound to at most one effect.
pub struct TransitionTable<V> {
    entries: Vec<(Cause<V>, Effect<V>)>,
}

impl<V> View for TransitionTable<V> {
    type V = Map<Cause<V>, Effect<V>>;

    closed spec fn view(&self) -> Map<Cause<V>, Effect<V>> {
        table_of(self.entries@)
    }
}

impl<V> TransitionTable<V> {
    /// No cause is bound twice.
    pub closed spec fn wf(&self) -> bool {
        causes_unique(self.entries@)
    }
}

impl<V: Tapeable> TransitionTable<V> {
    /// A table with no transitions.
    pub fn new() -> (r: TransitionTable<V>)
        ensures
            r.wf(),
            r@ == Map::<Cause<V>, Effect<V>>::empty(),
    {
        TransitionTable { entries: Vec::new() }
    }

    /// The index of the binding of `cause`, if there is one.
    fn find(&self, cause: &Cause<V>) -> (r: Option<usize>)
        ensures
            r is Some ==> r->0 < self.entries@.len() && self.entries@[r->0 as int].0 == *cause,
            r is None ==> forall|i: int| 0 <= i < self.entries@.len() ==> (#[trigger] self.entries@[i]).0 != *cause,
    {
        let n = self.entries.len();
        let mut i: usize = 0;
        while i < n
            invariant
                i <= n,
                n == self.entries@.len(),
                forall|j: int| 0 <= j < i ==> (#[trigger] self.entries@[j]).0 != *cause,
            decreases n - i,
        {
            let k = &self.entries[i].0;
            if k.0 == cause.0 && same_cell(&k.1, &cause.1) {
                return Some(i);
            }
            i = i + 1;
        }
        None
    }

    /// The effect bound to `cause`, if any.
    pub fn get(&self, cause: &Cause<V>) -> (r: Option<Effect<V>>)
        requires
            self.wf(),
        ensures
            r == (if self@.contains_key(*cause) { Some(self@[*cause]) } else { None }),
    {
        proof {
            lemma_table_contains(self.entries@, *cause);
        }
        match self.find(cause) {
            Some(i) => {
                proof {
                    lemma_table_at(self.entries@, i as int);
                }
                Some(self.entries[i].1)
            },
            None => None,
        }
    }

    /// Bind `cause` to `effect`, replacing and returning what it was bound to.
    pub fn insert(&mut self, cause: Cause<V>, effect: Effect<V>) -> (r: Option<Effect<V>>)
        requires
            old(self).wf(),
        ensures
            final(self).wf(),
            final(self)@ == old(self)@.insert(cause, effect),
            r == (if old(self)@.contains_key(cause) { Some(old(self)@[cause]) } else { None }),
    {
        proof {
            lemma_table_contains(self.entries@, cause);
        }
        match self.find(&cause) {
            Some(i) => {
                let ghost s = self.entries@;
                let previous = self.entries[i].1;
                proof {
                    lemma_table_at(s, i as int);
                    lemma_table_update(s, i as int, effect);
                }
                self.entries.set(i, (cause, effect));
                proof {
                    assert(s.update(i as int, (s[i as int].0, effect)) == self.entries@);
                    assert forall|a: int, b: int| 0 <= a < b < self.entries@.len() implies
                        (#[trigger] self.entries@[a]).0 != (#[trigger] self.entries@[b]).0 by {
                        assert(s[a].0 == self.entries@[a].0 && s[b].0 == self.entries@[b].0);
                    }
                }
                Some(previous)
            },
            None => {
                let ghost s = self.entries@;
                self.entries.push((cause, effect));
                proof {
                    assert(self.entries@.drop_last() =~= s);
                    assert forall|a: int, b: int| 0 <= a < b < self.entries@.len() implies
                        (#[trigger] self.entries@[a]).0 != (#[trigger] self.entries@[b]).0 by {
                        if b < s.len() {
                            assert(s[a] == self.entries@[a] && s[b] == self.entries@[b]);
                        } else {
                            assert(s[a] == self.entries@[a]);
                        }
                    }
                }
                None
            },
        }
    }

    /// The bindings of the table, each cause once, in the order in which
    /// causes were first bound.
    pub fn entries(&self) -> (r: &Vec<(Cause<V>, Effect<V>)>)
        requires
            self.wf(),
        ensures
            table_of(r@) == self@,
            causes_unique(r@),
    {
        &self.entries
    }
}

} // verus!
