//! The ledger state of one branch: a mapping from account handle to
//! account record, held as a vector of pairs with pairwise-distinct
//! handles and viewed as a `Map` from handle bytes to records. Every
//! branch owns its state outright, so work on one branch can never leak
//! into another.

use vstd::prelude::*;
use crate::types::{Account, AccountV, Identity};

verus! {

/// The specification-level image of a branch state.
pub type StateV = Map<Seq<u8>, AccountV>;

/// The map described by a sequence of (handle, record) pairs; later pairs
/// win, though a well-formed state never repeats a handle.
pub open spec fn map_of(s: Seq<(Identity, Account)>) -> StateV
    decreases s.len(),
{
    if s.len() == 0 {
        Map::empty()
    } else {
        map_of(s.drop_last()).insert(s.last().0@, s.last().1@)
    }
}

/// Pairwise distinctness of the handles in a pair sequence.
pub open spec fn distinct_ids(s: Seq<(Identity, Account)>) -> bool {
    forall|i: int, j: int| 0 <= i < j < s.len() ==> s[i].0@ != s[j].0@
}

/// A key is in the map exactly when some pair carries it.
pub proof fn lemma_map_of_contains(s: Seq<(Identity, Account)>, k: Seq<u8>)
    ensures
        map_of(s).contains_key(k) <==> exists|i: int| 0 <= i < s.len() && s[i].0@ == k,
    decreases s.len(),
{
    if s.len() > 0 {
        lemma_map_of_contains(s.drop_last(), k);
        assert(forall|i: int|
            0 <= i < s.len() - 1 ==> #[trigger] s.drop_last()[i] == s[i]);
        if map_of(s).contains_key(k) {
            if s.last().0@ == k {
                assert(s[s.len() - 1].0@ == k);
            }
        }
        if exists|i: int| 0 <= i < s.len() && s[i].0@ == k {
            let i = choose|i: int| 0 <= i < s.len() && s[i].0@ == k;
            if i < s.len() - 1 {
                assert(s.drop_last()[i].0@ == k);
            }
        }
    }
}

/// With distinct handles, the map sends each pair's handle to its record.
pub proof fn lemma_map_of_get(s: Seq<(Identity, Account)>, i: int)
    requires
        distinct_ids(s),
        0 <= i < s.len(),
    ensures
        map_of(s).contains_key(s[i].0@),
        map_of(s)[s[i].0@] == s[i].1@,
    decreases s.len(),
{
    if i < s.len() - 1 {
        assert(forall|j: int|
            0 <= j < s.len() - 1 ==> #[trigger] s.drop_last()[j] == s[j]);
        lemma_map_of_get(s.drop_last(), i);
        assert(s[i].0@ != s.last().0@);
    }
}

/// A key carried by no pair is absent from the map.
pub proof fn lemma_map_of_absent(s: Seq<(Identity, Account)>, k: Seq<u8>)
    requires
        forall|i: int| 0 <= i < s.len() ==> s[i].0@ != k,
    ensures
        !map_of(s).contains_key(k),
    decreases s.len(),
{
    if s.len() > 0 {
        assert(forall|i: int|
            0 <= i < s.len() - 1 ==> #[trigger] s.drop_last()[i] == s[i]);
        lemma_map_of_absent(s.drop_last(), k);
    }
}

/// Appending a pair inserts its handle.
pub proof fn lemma_map_of_push(s: Seq<(Identity, Account)>, p: (Identity, Account))
    ensures
        map_of(s.push(p)) == map_of(s).insert(p.0@, p.1@),
{
    assert(s.push(p).drop_last() =~= s);
    assert(s.push(p).last() == p);
}

/// Overwriting the pair that carries a handle inserts the new record.
pub proof fn lemma_map_of_update(s: Seq<(Identity, Account)>, i: int, p: (Identity, Account))
    requires
        distinct_ids(s),
        0 <= i < s.len(),
        s[i].0@ == p.0@,
    ensures
        map_of(s.update(i, p)) == map_of(s).insert(p.0@, p.1@),
    decreases s.len(),
{
    let t = s.update(i, p);
    if i == s.len() - 1 {
        assert(t.drop_last() =~= s.drop_last());
        assert(t.last() == p);
        assert(map_of(s.drop_last()).insert(p.0@, p.1@) =~= map_of(s).insert(p.0@, p.1@));
    } else {
        assert(forall|j: int|
            0 <= j < s.len() - 1 ==> #[trigger] s.drop_last()[j] == s[j]);
        lemma_map_of_update(s.drop_last(), i, p);
        assert(t.drop_last() =~= s.drop_last().update(i, p));
        assert(t.last() == s.last());
        assert(s[i].0@ != s.last().0@);
        assert(map_of(s.drop_last()).insert(p.0@, p.1@).insert(s.last().0@, s.last().1@)
            =~= map_of(s.drop_last()).insert(s.last().0@, s.last().1@).insert(p.0@, p.1@));
        assert(map_of(t) =~= map_of(s).insert(p.0@, p.1@));
    }
}

/// One branch's ledger state.
pub struct LedgerState {
    pairs: Vec<(Identity, Account)>,
}

impl LedgerState {
    /// The state as a map from handle bytes to account records.
    pub closed spec fn view(&self) -> StateV {
        map_of(self.pairs@)
    }

    /// Well-formedness: no handle occurs twice.
    pub closed spec fn wf(&self) -> bool {
        distinct_ids(self.pairs@)
    }

    /// The empty state.
    pub fn new() -> (r: LedgerState)
        ensures
            r@ == Map::<Seq<u8>, AccountV>::empty(),
            r.wf(),
    {
        LedgerState { pairs: Vec::new() }
    }

    /// The position of the pair carrying `id`, if any.
    fn find(&self, id: &Identity) -> (r: Option<usize>)
        requires
            self.wf(),
        ensures
            match r {
                Some(i) => {
                    &&& i < self.pairs@.len()
                    &&& self.pairs@[i as int].0@ == id@
                    &&& self@.contains_key(id@)
                    &&& self@[id@] == self.pairs@[i as int].1@
                },
                None => !self@.contains_key(id@),
            },
    {
        let n = self.pairs.len();
        let mut i: usize = 0;
        while i < n
            invariant
                n == self.pairs@.len(),
                i <= n,
                self.wf(),
                forall|j: int| 0 <= j < i ==> self.pairs@[j].0@ != id@,
            decreases n - i,
        {
            if self.pairs[i].0.same(id) {
                proof {
                    lemma_map_of_get(self.pairs@, i as int);
                }
                return Some(i);
            }
            i = i + 1;
        }
        proof {
            lemma_map_of_absent(self.pairs@, id@);
        }
        None
    }

    /// Whether `id` is registered in this state.
    pub fn contains(&self, id: &Identity) -> (r: bool)
        requires
            self.wf(),
        ensures
            r == self@.contains_key(id@),
    {
        self.find(id).is_some()
    }

    /// The account record registered under `id`, if any.
    pub fn get(&self, id: &Identity) -> (r: Option<&Account>)
        requires
            self.wf(),
        ensures
            match r {
                Some(a) => self@.contains_key(id@) && a@ == self@[id@],
                None => !self@.contains_key(id@),
            },
    {
        match self.find(id) {
            Some(i) => Some(&self.pairs[i].1),
            None => None,
        }
    }

    /// Registers or overwrites the record under `id`.
    pub fn put(&mut self, id: Identity, account: Account)
        requires
            old(self).wf(),
        ensures
            final(self).wf(),
            final(self)@ == old(self)@.insert(id@, account@),
    {
        match self.find(&id) {
            Some(i) => {
                proof {
                    lemma_map_of_update(self.pairs@, i as int, (id, account));
                    let t = self.pairs@.update(i as int, (id, account));
                    assert(forall|j: int|
                        0 <= j < t.len() && j != i ==> #[trigger] t[j] == self.pairs@[j]);
                    assert(t[i as int].0@ == self.pairs@[i as int].0@);
                    assert(distinct_ids(t));
                }
                self.pairs[i] = (id, account);
            },
            None => {
                proof {
                    lemma_map_of_contains(self.pairs@, id@);
                    assert(forall|j: int|
                        0 <= j < self.pairs@.len() ==> #[trigger] self.pairs@[j].0@ != id@);
                    lemma_map_of_push(self.pairs@, (id, account));
                    let t = self.pairs@.push((id, account));
                    assert(forall|j: int|
                        0 <= j < self.pairs@.len() ==> #[trigger] t[j] == self.pairs@[j]);
                    assert(t[t.len() - 1].0@ == id@);
                    assert(distinct_ids(t));
                }
                self.pairs.push((id, account));
            },
        }
    }

    /// An independent copy: the snapshot a child branch starts from.
    pub fn snapshot(&self) -> (r: LedgerState)
        ensures
            r@ == self@,
            r.wf() == self.wf(),
    {
        let n = self.pairs.len();
        let mut pairs: Vec<(Identity, Account)> = Vec::new();
        let mut i: usize = 0;
        while i < n
            invariant
                n == self.pairs@.len(),
                i <= n,
                pairs@ == self.pairs@.take(i as int),
            decreases n - i,
        {
            pairs.push(self.pairs[i]);
            proof {
                assert(pairs@ =~= self.pairs@.take(i + 1));
            }
            i = i + 1;
        }
        proof {
            assert(pairs@ =~= self.pairs@);
        }
        LedgerState { pairs }
    }
}

} // verus!
