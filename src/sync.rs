use vstd::prelude::*;
use crate::clause::{KeysClause, clause_key};

verus! {

broadcast use vstd::std_specs::vec::group_vec_axioms, vstd::seq::group_seq_axioms;

/// What a clause selects, as plain values.
pub type ClauseKey = (Seq<char>, Seq<Seq<u8>>);

/// The set of clause keys of a sequence of clauses.
pub open spec fn keys_of(cs: Seq<KeysClause>) -> Set<ClauseKey> {
    Set::new(|k: ClauseKey| exists|i: int| 0 <= i < cs.len() && clause_key(#[trigger] cs[i]) == k)
}

/// The clauses that are kept up to date, each at most once.
pub struct SyncRegistry {
    pub clauses: Vec<KeysClause>,
}

/// Whether two clauses select the same entities.
pub fn same_clause(a: &KeysClause, b: &KeysClause) -> (r: bool)
    ensures
        r == (clause_key(*a) == clause_key(*b)),
{
    if a.model != b.model || a.keys.len() != b.keys.len() {
        proof {
            if clause_key(*a) == clause_key(*b) {
                assert(clause_key(*a).1.len() == a.keys@.len());
            }
        }
        return false;
    }
    let mut i: usize = 0;
    while i < a.keys.len()
        invariant
            0 <= i <= a.keys@.len(),
            a.keys@.len() == b.keys@.len(),
            forall|j: int| 0 <= j < i ==> a.keys@[j].bytes@ == b.keys@[j].bytes@,
        decreases a.keys@.len() - i,
    {
        if !a.keys[i].same(&b.keys[i]) {
            proof {
                if clause_key(*a) == clause_key(*b) {
                    assert(clause_key(*a).1[i as int] == a.keys@[i as int].bytes@);
                }
            }
            return false;
        }
        i = i + 1;
    }
    assert(clause_key(*a).1 =~= clause_key(*b).1);
    true
}

impl SyncRegistry {
    /// The set of clauses being kept up to date.
    pub open spec fn view(&self) -> Set<ClauseKey> {
        keys_of(self.clauses@)
    }

    /// No clause stands twice.
    pub open spec fn wf(&self) -> bool {
        forall|i: int, j: int|
            0 <= i < j < self.clauses@.len() ==> clause_key(#[trigger] self.clauses@[i])
                != clause_key(#[trigger] self.clauses@[j])
    }

    pub fn new() -> (r: SyncRegistry)
        ensures
            r.wf(),
            r@ == Set::<ClauseKey>::empty(),
    {
        let r = SyncRegistry { clauses: Vec::new() };
        assert(r@ =~= Set::<ClauseKey>::empty());
        r
    }

    /// Whether a clause is kept up to date.
    pub fn contains(&self, c: &KeysClause) -> (r: bool)
        ensures
            r == self@.contains(clause_key(*c)),
    {
        let mut i: usize = 0;
        while i < self.clauses.len()
            invariant
                0 <= i <= self.clauses@.len(),
                forall|j: int| 0 <= j < i ==> clause_key(#[trigger] self.clauses@[j]) != clause_key(*c),
            decreases self.clauses@.len() - i,
        {
            if same_clause(&self.clauses[i], c) {
                return true;
            }
            i = i + 1;
        }
        false
    }

    /// Starts keeping a clause up to date; a clause already kept stays as it is.
    pub fn add(&mut self, c: KeysClause)
        requires
            old(self).wf(),
        ensures
            final(self).wf(),
            final(self)@ == old(self)@.insert(clause_key(c)),
    {
        if self.contains(&c) {
            assert(self@ =~= self@.insert(clause_key(c)));
            return;
        }
        let ghost k = clause_key(c);
        let ghost before = self.clauses@;
        self.clauses.push(c);
        assert(self.clauses@ == before.push(c));
        assert forall|x: ClauseKey| self@.contains(x) <==> keys_of(before).insert(k).contains(x) by {
            if keys_of(before).contains(x) && x != k {
                let i = choose|i: int| 0 <= i < before.len() && clause_key(#[trigger] before[i]) == x;
                assert(self.clauses@[i] == before[i]);
            }
            if x == k {
                assert(self.clauses@[before.len() as int] == c);
            }
            if self@.contains(x) {
                let i = choose|i: int| 0 <= i < self.clauses@.len() && clause_key(#[trigger] self.clauses@[i]) == x;
                if i < before.len() {
                    assert(self.clauses@[i] == before[i]);
                }
            }
        }
        assert(self@ =~= keys_of(before).insert(k));
        assert forall|i: int, j: int| 0 <= i < j < self.clauses@.len() implies clause_key(
            #[trigger] self.clauses@[i],
        ) != clause_key(#[trigger] self.clauses@[j]) by {
            if j == before.len() {
                assert(self.clauses@[i] == before[i]);
            } else {
                assert(self.clauses@[i] == before[i]);
                assert(self.clauses@[j] == before[j]);
            }
        }
    }

    /// Where a clause stands, if it is kept.
    pub fn position(&self, c: &KeysClause) -> (r: Option<usize>)
        ensures
            r matches Some(i) ==> i < self.clauses@.len() && clause_key(self.clauses@[i as int])
                == clause_key(*c),
            r is None ==> !self@.contains(clause_key(*c)),
    {
        let mut i: usize = 0;
        while i < self.clauses.len()
            invariant
                0 <= i <= self.clauses@.len(),
                forall|j: int| 0 <= j < i ==> clause_key(#[trigger] self.clauses@[j]) != clause_key(*c),
            decreases self.clauses@.len() - i,
        {
            if same_clause(&self.clauses[i], c) {
                return Some(i);
            }
            i = i + 1;
        }
        None
    }

    /// Stops keeping a clause up to date; a clause not kept is ignored.
    pub fn remove(&mut self, c: &KeysClause)
        requires
            old(self).wf(),
        ensures
            final(self).wf(),
            final(self)@ == old(self)@.remove(clause_key(*c)),
    {
        let ghost k = clause_key(*c);
        match self.position(c) {
            None => {
                assert(self@ =~= old(self)@.remove(k));
            },
            Some(i) => {
                let ghost before = self.clauses@;
                assert(clause_key(before[i as int]) == k);
                let _gone = self.clauses.remove(i);
                assert(self.clauses@ =~= before.subrange(0, i as int) + before.subrange(i + 1, before.len() as int));
                assert forall|x: ClauseKey| self@.contains(x) <==> keys_of(before).remove(k).contains(x) by {
                    if self@.contains(x) {
                        let j = choose|j: int| 0 <= j < self.clauses@.len() && clause_key(#[trigger] self.clauses@[j]) == x;
                        if j < i {
                            assert(self.clauses@[j] == before[j]);
                            assert(clause_key(before[j]) != clause_key(before[i as int]));
                        } else {
                            assert(self.clauses@[j] == before[j + 1]);
                            assert(clause_key(before[i as int]) != clause_key(before[j + 1]));
                        }
                    }
                    if keys_of(before).contains(x) && x != k {
                        let j = choose|j: int| 0 <= j < before.len() && clause_key(#[trigger] before[j]) == x;
                        if j < i {
                            assert(self.clauses@[j] == before[j]);
                        } else {
                            assert(j != i);
                            assert(self.clauses@[j - 1] == before[j]);
                        }
                    }
                }
                assert(self@ =~= old(self)@.remove(k));
                assert forall|a: int, b: int| 0 <= a < b < self.clauses@.len() implies clause_key(
                    #[trigger] self.clauses@[a],
                ) != clause_key(#[trigger] self.clauses@[b]) by {
                    let a0 = if a < i { a } else { a + 1 };
                    let b0 = if b < i { b } else { b + 1 };
                    assert(self.clauses@[a] == before[a0]);
                    assert(self.clauses@[b] == before[b0]);
                }
            },
        }
    }
}


pub proof fn lemma_keys_of_push(cs: Seq<KeysClause>, c: KeysClause)
    ensures
        keys_of(cs.push(c)) == keys_of(cs).insert(clause_key(c)),
{
    let n = cs.len() as int;
    assert forall|x: ClauseKey| keys_of(cs.push(c)).contains(x) <==> keys_of(cs).insert(clause_key(c)).contains(x) by {
        if keys_of(cs.push(c)).contains(x) {
            let i = choose|i: int| 0 <= i < n + 1 && clause_key(#[trigger] cs.push(c)[i]) == x;
            if i < n {
                assert(cs.push(c)[i] == cs[i]);
            }
        }
        if keys_of(cs).contains(x) {
            let i = choose|i: int| 0 <= i < n && clause_key(#[trigger] cs[i]) == x;
            assert(cs.push(c)[i] == cs[i]);
        }
        if x == clause_key(c) {
            assert(cs.push(c)[n] == c);
        }
    }
    assert(keys_of(cs.push(c)) =~= keys_of(cs).insert(clause_key(c)));
}

/// Registering clauses and then withdrawing the same clauses leaves the registrations as they
/// were, when none of them was registered before; from no registrations, that is none again.
pub proof fn lemma_add_then_remove_restores(before: Set<ClauseKey>, cs: Seq<KeysClause>)
    requires
        before.disjoint(keys_of(cs)),
    ensures
        before.union(keys_of(cs)).difference(keys_of(cs)) == before,
        before.is_empty() ==> before.union(keys_of(cs)).difference(keys_of(cs)).is_empty(),
{
    assert(before.union(keys_of(cs)).difference(keys_of(cs)) =~= before);
}

/// Withdrawing clauses that were never registered changes nothing.
pub proof fn lemma_remove_unregistered_is_noop(before: Set<ClauseKey>, cs: Seq<KeysClause>)
    requires
        before.disjoint(keys_of(cs)),
    ensures
        before.difference(keys_of(cs)) == before,
{
    assert(before.difference(keys_of(cs)) =~= before);
}

} // verus!
