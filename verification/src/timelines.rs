//! The forest of all known branches, keyed by block hash: lookup,
//! insert-only growth, and the admission pipeline that validates a block
//! against its claimed parent and stores the child branch.

use vstd::prelude::*;
use crate::action::ActionFault;
use crate::block::Block;
use crate::block::BlockV;
use crate::block::block_bytes;
use crate::block::child_cap;
use crate::block::lemma_run_err;
use crate::block::lemma_run_snoc;
use crate::block::lemma_run_take_all;
use crate::block::next_cap;
use crate::block::run_actions;
use crate::crypto::hash;
use crate::crypto::now_micros;
use crate::crypto::sha3_of;
use crate::state::LedgerState;
use crate::state::StateV;
use crate::types::Digest;

verus! {

/// Why a block is refused. Validation is fail-closed: any failure leaves
/// every branch untouched.
#[derive(Clone, Copy, Debug, PartialEq, Eq)]
pub enum Reject {
    /// The claimed parent hash is not a known branch.
    UnknownParent,
    /// The block's timestamp is not after the parent's, or not before
    /// the present.
    BadTimestamp,
    /// The block carries more actions than the parent's size-cap allows.
    SizeCapExceeded,
    /// An action failed, at this position and for this cause; no prefix
    /// of the block is kept.
    InvalidAction { index: usize, cause: ActionFault },
    /// The caller's Sybil-resistance predicate refused the block.
    ProofRejected,
    /// A branch under this block's hash already exists; entries are
    /// never overwritten.
    DuplicateBlockHash,
}

/// One admitted branch tip: the block, the state it leads to, and the
/// size-cap its children inherit.
pub struct BranchEntry {
    pub block: Block,
    pub state: LedgerState,
    pub max_size: usize,
}

/// The specification-level image of a branch entry.
pub ghost struct EntryV {
    pub block: BlockV,
    pub state: StateV,
    pub max_size: nat,
}

impl BranchEntry {
    /// The entry with block and state as their specification images.
    pub open spec fn view(&self) -> EntryV {
        EntryV { block: self.block@, state: self.state@, max_size: self.max_size as nat }
    }

    /// Well-formedness: the stored state is well-formed.
    pub open spec fn wf(&self) -> bool {
        self.state.wf()
    }
}

/// The specification-level image of the whole forest.
pub type TimelinesV = Map<Seq<u8>, EntryV>;

/// The map described by a sequence of (hash, entry) pairs.
pub open spec fn tl_map_of(s: Seq<(Digest, BranchEntry)>) -> TimelinesV
    decreases s.len(),
{
    if s.len() == 0 {
        Map::empty()
    } else {
        tl_map_of(s.drop_last()).insert(s.last().0@, s.last().1@)
    }
}

/// Pairwise distinctness of the hashes in a pair sequence.
pub open spec fn tl_distinct(s: Seq<(Digest, BranchEntry)>) -> bool {
    forall|i: int, j: int| 0 <= i < j < s.len() ==> s[i].0@ != s[j].0@
}

/// A hash is in the map exactly when some pair carries it.
pub proof fn lemma_tl_map_of_contains(s: Seq<(Digest, BranchEntry)>, k: Seq<u8>)
    ensures
        tl_map_of(s).contains_key(k) <==> exists|i: int| 0 <= i < s.len() && s[i].0@ == k,
    decreases s.len(),
{
    if s.len() > 0 {
        lemma_tl_map_of_contains(s.drop_last(), k);
        assert(forall|i: int|
            0 <= i < s.len() - 1 ==> #[trigger] s.drop_last()[i] == s[i]);
        if tl_map_of(s).contains_key(k) {
            if s.last().0@ == k {
                assert(s[s.len() - 1].0@ == k);
            }
        }
        if exists|i: int| 0 <= i < s.len() && s[i].0@ == k {
            let i = choose|i: int| 0 <= i < s.len() && s[i].0@ == k;
            if i < s.len() - 1 {
                assert(s.drop_last()[i].0@ == k);
            }
        }
    }
}

/// With distinct hashes, the map sends each pair's hash to its entry.
pub proof fn lemma_tl_map_of_get(s: Seq<(Digest, BranchEntry)>, i: int)
    requires
        tl_distinct(s),
        0 <= i < s.len(),
    ensures
        tl_map_of(s).contains_key(s[i].0@),
        tl_map_of(s)[s[i].0@] == s[i].1@,
    decreases s.len(),
{
    if i < s.len() - 1 {
        assert(forall|j: int|
            0 <= j < s.len() - 1 ==> #[trigger] s.drop_last()[j] == s[j]);
        lemma_tl_map_of_get(s.drop_last(), i);
        assert(s[i].0@ != s.last().0@);
    }
}

/// Appending a pair inserts its hash.
pub proof fn lemma_tl_map_of_push(s: Seq<(Digest, BranchEntry)>, p: (Digest, BranchEntry))
    ensures
        tl_map_of(s.push(p)) == tl_map_of(s).insert(p.0@, p.1@),
{
    assert(s.push(p).drop_last() =~= s);
    assert(s.push(p).last() == p);
}

/// What admitting `b` against the forest `t` at wall-clock `now` with
/// puzzle verdict `proof_ok` returns: the new branch's hash, or the
/// first reject the pipeline meets, in its fixed order.
pub open spec fn admit_outcome(t: TimelinesV, b: BlockV, now: int, proof_ok: bool) -> Result<
    Seq<u8>,
    Reject,
> {
    if !t.contains_key(b.prev_hash) {
        Err(Reject::UnknownParent)
    } else {
        let parent = t[b.prev_hash];
        if !(parent.block.timestamp < b.timestamp && (b.timestamp as int) < now) {
            Err(Reject::BadTimestamp)
        } else if b.actions.len() > parent.max_size {
            Err(Reject::SizeCapExceeded)
        } else {
            match run_actions(b.actions, parent.state) {
                Err(e) => Err(Reject::InvalidAction { index: e.0 as usize, cause: e.1 }),
                Ok(s2) => {
                    if !proof_ok {
                        Err(Reject::ProofRejected)
                    } else if t.contains_key(sha3_of(block_bytes(b))) {
                        Err(Reject::DuplicateBlockHash)
                    } else {
                        Ok(sha3_of(block_bytes(b)))
                    }
                },
            }
        }
    }
}

/// The branch entry a successful admission stores: the block, the state
/// its actions lead to from the parent's snapshot, and the drifted cap.
pub open spec fn admit_entry(t: TimelinesV, b: BlockV) -> EntryV
    recommends
        t.contains_key(b.prev_hash),
        run_actions(b.actions, t[b.prev_hash].state) is Ok,
{
    EntryV {
        block: b,
        state: run_actions(b.actions, t[b.prev_hash].state)->Ok_0,
        max_size: next_cap(t[b.prev_hash].block.actions.len(), t[b.prev_hash].max_size),
    }
}

/// The forest after an admission attempt: grown by exactly the new
/// entry on success, untouched on any reject.
pub open spec fn admit_next(t: TimelinesV, b: BlockV, now: int, proof_ok: bool) -> TimelinesV {
    match admit_outcome(t, b, now, proof_ok) {
        Ok(h) => t.insert(h, admit_entry(t, b)),
        Err(r) => t,
    }
}

/// An admission result with the returned hash as a byte sequence.
pub open spec fn result_bytes(r: Result<Digest, Reject>) -> Result<Seq<u8>, Reject> {
    match r {
        Ok(d) => Ok(d@),
        Err(e) => Err(e),
    }
}

/// One admission attempt described end to end: what came back and what
/// the forest became, at wall-clock `now`.
pub open spec fn admit_step(
    t0: TimelinesV,
    b: BlockV,
    now: int,
    proof_ok: bool,
    r: Result<Seq<u8>, Reject>,
    t1: TimelinesV,
) -> bool {
    r == admit_outcome(t0, b, now, proof_ok) && t1 == admit_next(t0, b, now, proof_ok)
}

/// The forest of all known branches, keyed by block hash.
pub struct Timelines {
    entries: Vec<(Digest, BranchEntry)>,
}

impl Timelines {
    /// The forest as a map from hash bytes to branch entries.
    pub closed spec fn view(&self) -> TimelinesV {
        tl_map_of(self.entries@)
    }

    /// Well-formedness: no hash occurs twice, and every stored state is
    /// well-formed.
    pub closed spec fn wf(&self) -> bool {
        &&& tl_distinct(self.entries@)
        &&& forall|i: int| 0 <= i < self.entries@.len() ==> (#[trigger] self.entries@[i].1).wf()
    }

    /// The empty forest; the caller seeds a genesis entry into it.
    pub fn new() -> (r: Timelines)
        ensures
            r@ == Map::<Seq<u8>, EntryV>::empty(),
            r.wf(),
    {
        Timelines { entries: Vec::new() }
    }

    /// The position of the pair carrying `h`, if any.
    fn find(&self, h: &Digest) -> (r: Option<usize>)
        requires
            self.wf(),
        ensures
            match r {
                Some(i) => {
                    &&& i < self.entries@.len()
                    &&& self.entries@[i as int].0@ == h@
                    &&& self@.contains_key(h@)
                    &&& self@[h@] == self.entries@[i as int].1@
                },
                None => !self@.contains_key(h@),
            },
    {
        let n = self.entries.len();
        let mut i: usize = 0;
        while i < n
            invariant
                n == self.entries@.len(),
                i <= n,
                self.wf(),
                forall|j: int| 0 <= j < i ==> self.entries@[j].0@ != h@,
            decreases n - i,
        {
            if self.entries[i].0.same(h) {
                proof {
                    lemma_tl_map_of_get(self.entries@, i as int);
                }
                return Some(i);
            }
            i = i + 1;
        }
        proof {
            lemma_tl_map_of_contains(self.entries@, h@);
        }
        None
    }

    /// Whether a branch under `h` is known.
    pub fn contains(&self, h: &Digest) -> (r: bool)
        requires
            self.wf(),
        ensures
            r == self@.contains_key(h@),
    {
        self.find(h).is_some()
    }

    /// The branch entry under `h`, if any.
    pub fn get(&self, h: &Digest) -> (r: Option<&BranchEntry>)
        requires
            self.wf(),
        ensures
            match r {
                Some(e) => self@.contains_key(h@) && e@ == self@[h@] && e.wf(),
                None => !self@.contains_key(h@),
            },
    {
        match self.find(h) {
            Some(i) => Some(&self.entries[i].1),
            None => None,
        }
    }

    /// Every known branch hash, one per entry, in no promised order:
    /// the handle a caller walks to apply its own branch-selection
    /// policy. The contract fixes completeness and distinctness alone.
    pub fn hashes(&self) -> (r: Vec<Digest>)
        requires
            self.wf(),
        ensures
            forall|i: int| 0 <= i < r@.len() ==> self@.contains_key(#[trigger] r@[i]@),
            forall|k: Seq<u8>|
                #[trigger] self@.contains_key(k) ==> exists|i: int| 0 <= i < r@.len() && r@[i]@ == k,
            forall|i: int, j: int| 0 <= i < j < r@.len() ==> r@[i]@ != r@[j]@,
    {
        let n = self.entries.len();
        let mut r: Vec<Digest> = Vec::new();
        let mut i: usize = 0;
        while i < n
            invariant
                n == self.entries@.len(),
                i <= n,
                self.wf(),
                r@.len() == i,
                forall|j: int| 0 <= j < i ==> r@[j]@ == self.entries@[j].0@,
            decreases n - i,
        {
            r.push(self.entries[i].0);
            i = i + 1;
        }
        proof {
            assert forall|j: int| 0 <= j < r@.len() implies self@.contains_key(#[trigger] r@[j]@) by {
                lemma_tl_map_of_get(self.entries@, j);
            }
            assert forall|k: Seq<u8>| #[trigger] self@.contains_key(k) implies exists|j: int|
                0 <= j < r@.len() && r@[j]@ == k by {
                lemma_tl_map_of_contains(self.entries@, k);
                let j = choose|j: int| 0 <= j < self.entries@.len() && self.entries@[j].0@ == k;
                assert(r@[j]@ == k);
            }
        }
        r
    }

    /// Stores `entry` under `h` if that hash is new; never overwrites.
    /// This is how the caller seeds the genesis branch.
    pub fn insert_entry(&mut self, h: Digest, entry: BranchEntry) -> (r: bool)
        requires
            old(self).wf(),
            entry.wf(),
        ensures
            final(self).wf(),
            r == !old(self)@.contains_key(h@),
            r ==> final(self)@ == old(self)@.insert(h@, entry@),
            !r ==> final(self)@ == old(self)@,
    {
        match self.find(&h) {
            Some(i) => false,
            None => {
                proof {
                    lemma_tl_map_of_contains(self.entries@, h@);
                    lemma_tl_map_of_push(self.entries@, (h, entry));
                    let t = self.entries@.push((h, entry));
                    assert(forall|j: int|
                        0 <= j < self.entries@.len() ==> #[trigger] t[j] == self.entries@[j]);
                    assert(t[t.len() - 1] == (h, entry));
                    assert(tl_distinct(t));
                }
                self.entries.push((h, entry));
                true
            },
        }
    }

    /// Validates `block` against its claimed parent at wall-clock `now`
    /// and, on success, stores the child branch under the block's hash
    /// and returns that hash. `proof_ok` is the caller's verdict of the
    /// pluggable Sybil-resistance predicate over this block and forest.
    /// Rejects fail closed: the forest is untouched, and the reason says
    /// exactly which check failed first.
    pub fn admit_at(&mut self, block: Block, now: i64, proof_ok: bool) -> (r: Result<
        Digest,
        Reject,
    >)
        requires
            old(self).wf(),
        ensures
            final(self).wf(),
            result_bytes(r) == admit_outcome(old(self)@, block@, now as int, proof_ok),
            final(self)@ == admit_next(old(self)@, block@, now as int, proof_ok),
    {
        let pi = match self.find(&block.prev_hash) {
            Some(i) => i,
            None => {
                return Err(Reject::UnknownParent);
            },
        };
        let parent_ts = self.entries[pi].1.block.timestamp;
        if !(parent_ts < block.timestamp && block.timestamp < now) {
            return Err(Reject::BadTimestamp);
        }
        let cap = self.entries[pi].1.max_size;
        if block.actions.len() > cap {
            return Err(Reject::SizeCapExceeded);
        }
        let mut working = self.entries[pi].1.state.snapshot();
        let ghost acts = block@.actions;
        let ghost s0 = working@;
        let ghost parentv = self@[block.prev_hash@];
        let n = block.actions.len();
        let mut j: usize = 0;
        while j < n
            invariant
                n == acts.len(),
                j <= n,
                acts == block@.actions,
                n == block.actions@.len(),
                working.wf(),
                run_actions(acts.take(j as int), s0) == Ok::<StateV, (int, ActionFault)>(working@),
                self == old(self),
                old(self).wf(),
                old(self)@.contains_key(block.prev_hash@),
                parentv == old(self)@[block.prev_hash@],
                parentv.block.timestamp < block@.timestamp,
                (block@.timestamp as int) < now as int,
                block@.actions.len() <= parentv.max_size,
                s0 == parentv.state,
            decreases n - j,
        {
            let a = block.actions[j];
            proof {
                assert(acts[j as int] == block.actions@[j as int]@);
                lemma_run_snoc(acts, s0, j as int);
            }
            match a.fault(&working) {
                Some(cause) => {
                    proof {
                        lemma_run_err(acts, s0, j + 1);
                        assert(run_actions(acts, s0) == Err::<StateV, (int, ActionFault)>((
                            j as int,
                            cause,
                        )));
                        assert(admit_outcome(old(self)@, block@, now as int, proof_ok)
                            == Err::<Seq<u8>, Reject>(Reject::InvalidAction { index: j, cause }));
                    }
                    return Err(Reject::InvalidAction { index: j, cause });
                },
                None => {
                    proof {
                        assert(crate::action::verify_ok(a@, working@));
                    }
                    let performed = a.perform(&mut working);
                    proof {
                        assert(performed);
                        assert(run_actions(acts.take(j + 1), s0) == Ok::<
                            StateV,
                            (int, ActionFault),
                        >(working@));
                    }
                },
            }
            j = j + 1;
        }
        proof {
            lemma_run_take_all(acts, s0);
        }
        if !proof_ok {
            return Err(Reject::ProofRejected);
        }
        let bytes = block.to_bytes();
        let h = hash(&bytes);
        if self.find(&h).is_some() {
            return Err(Reject::DuplicateBlockHash);
        }
        let parent_len = self.entries[pi].1.block.actions.len();
        let new_cap = child_cap(parent_len, cap);
        let entry = BranchEntry { block, state: working, max_size: new_cap };
        proof {
            lemma_tl_map_of_contains(self.entries@, h@);
            lemma_tl_map_of_push(self.entries@, (h, entry));
            let t = self.entries@.push((h, entry));
            assert(forall|k: int|
                0 <= k < self.entries@.len() ==> #[trigger] t[k] == self.entries@[k]);
            assert(t[t.len() - 1] == (h, entry));
            assert(tl_distinct(t));
        }
        self.entries.push((h, entry));
        Ok(h)
    }

    /// Validates `block` at the present wall-clock time. Whatever time
    /// the clock hands back, the attempt is one `admit_at` run at that
    /// time.
    pub fn admit_now(&mut self, block: Block, proof_ok: bool) -> (r: Result<Digest, Reject>)
        requires
            old(self).wf(),
        ensures
            final(self).wf(),
            exists|now: int|
                admit_step(
                    old(self)@,
                    block@,
                    now,
                    proof_ok,
                    result_bytes(r),
                    final(self)@,
                ),
    {
        let now = now_micros();
        let ghost t0 = self@;
        let ghost bv = block@;
        let r = self.admit_at(block, now, proof_ok);
        proof {
            assert(admit_step(t0, bv, now as int, proof_ok, result_bytes(r), self@));
        }
        r
    }
}

} // verus!
