//! Blocks: the hash-linked carriers of ordered action lists, their
//! canonical byte encoding, the in-order run of their actions over a
//! state snapshot, and the adaptive size-cap policy.

use vstd::prelude::*;
use crate::action::Action;
use crate::action::ActionFault;
use crate::action::ActionV;
use crate::action::action_bytes;
use crate::action::apply_action;
use crate::action::fault_of;
use crate::encoding::push_bytes;
use crate::state::StateV;
use crate::types::Digest;
use crate::types::ProofToken;
use crate::types::PublicKey;

verus! {

/// One block: a parent reference, an opaque puzzle token, the miner's
/// reward key, a timestamp in microseconds since the Unix epoch, and an
/// ordered list of actions. Identified by the hash of its byte encoding.
pub struct Block {
    pub prev_hash: Digest,
    pub proof_token: ProofToken,
    pub miner_pk: PublicKey,
    pub timestamp: i64,
    pub actions: Vec<Action>,
}

/// The specification-level image of a block.
pub ghost struct BlockV {
    pub prev_hash: Seq<u8>,
    pub proof_token: Seq<u8>,
    pub miner_pk: Seq<u8>,
    pub timestamp: i64,
    pub actions: Seq<ActionV>,
}

impl Block {
    /// The block with every field as a byte sequence.
    pub open spec fn view(&self) -> BlockV {
        BlockV {
            prev_hash: self.prev_hash@,
            proof_token: self.proof_token@,
            miner_pk: self.miner_pk@,
            timestamp: self.timestamp,
            actions: self.actions@.map_values(|a: Action| a@),
        }
    }

    /// The canonical byte encoding of the block, the bytes its hash
    /// covers: `prev_hash(32) || proof_token(8) || miner_pk(32)` followed
    /// by each action's encoding in order. The timestamp is not covered;
    /// the validated wire format leaves it out.
    pub fn to_bytes(&self) -> (r: Vec<u8>)
        ensures
            r@ == block_bytes(self@),
    {
        let mut out: Vec<u8> = Vec::new();
        push_bytes(&mut out, &self.prev_hash.0);
        push_bytes(&mut out, &self.proof_token.0);
        push_bytes(&mut out, &self.miner_pk.0);
        let ghost header = out@;
        let n = self.actions.len();
        let mut j: usize = 0;
        while j < n
            invariant
                n == self.actions@.len(),
                j <= n,
                self@.actions == self.actions@.map_values(|a: Action| a@),
                self@.actions.len() == n,
                out@ == header + actions_bytes(self@.actions.take(j as int)),
            decreases n - j,
        {
            let mut piece = self.actions[j].to_bytes();
            out.append(&mut piece);
            proof {
                assert(self@.actions[j as int] == self.actions@[j as int]@);
                assert(self@.actions.take(j + 1).drop_last() =~= self@.actions.take(j as int));
                assert(self@.actions.take(j + 1).last() == self@.actions[j as int]);
            }
            j = j + 1;
        }
        proof {
            assert(self@.actions.take(n as int) =~= self@.actions);
            assert(out@ =~= block_bytes(self@));
        }
        out
    }
}

/// The concatenation of the canonical encodings of a list of actions.
pub open spec fn actions_bytes(acts: Seq<ActionV>) -> Seq<u8>
    decreases acts.len(),
{
    if acts.len() == 0 {
        Seq::empty()
    } else {
        actions_bytes(acts.drop_last()) + action_bytes(acts.last())
    }
}

/// The bytes a block's hash covers.
pub open spec fn block_bytes(b: BlockV) -> Seq<u8> {
    b.prev_hash + b.proof_token + b.miner_pk + actions_bytes(b.actions)
}

/// The in-order run of a list of actions over a state: the resulting
/// state, or the position and cause of the first fault. No prefix of a
/// faulting run is ever kept.
pub open spec fn run_actions(acts: Seq<ActionV>, s: StateV) -> Result<StateV, (int, ActionFault)>
    decreases acts.len(),
{
    if acts.len() == 0 {
        Ok(s)
    } else {
        match fault_of(acts[0], s) {
            Some(f) => Err((0int, f)),
            None => match run_actions(acts.drop_first(), apply_action(acts[0], s)) {
                Ok(s2) => Ok(s2),
                Err(e) => Err((e.0 + 1, e.1)),
            },
        }
    }
}

/// Extending a faultless prefix by one action runs that action on the
/// prefix's resulting state.
pub proof fn lemma_run_snoc(acts: Seq<ActionV>, s: StateV, j: int)
    requires
        0 <= j < acts.len(),
        run_actions(acts.take(j), s) is Ok,
    ensures
        run_actions(acts.take(j + 1), s) == (match fault_of(
            acts[j],
            run_actions(acts.take(j), s)->Ok_0,
        ) {
            Some(f) => Err::<StateV, (int, ActionFault)>((j, f)),
            None => Ok::<StateV, (int, ActionFault)>(
                apply_action(acts[j], run_actions(acts.take(j), s)->Ok_0),
            ),
        }),
    decreases j,
{
    let t0 = acts.take(j);
    let t1 = acts.take(j + 1);
    let m = run_actions(t0, s)->Ok_0;
    if j == 0 {
        assert(t0 =~= Seq::<ActionV>::empty());
        assert(run_actions(t0, s) == Ok::<StateV, (int, ActionFault)>(s));
        assert(t1 =~= seq![acts[0]]);
        assert(t1.len() == 1 && t1[0] == acts[0]);
        assert(t1.drop_first() =~= Seq::<ActionV>::empty());
        match fault_of(acts[0], s) {
            Some(f) => {
                assert(run_actions(t1, s) == Err::<StateV, (int, ActionFault)>((0int, f)));
            },
            None => {
                assert(run_actions(t1.drop_first(), apply_action(acts[0], s))
                    == Ok::<StateV, (int, ActionFault)>(apply_action(acts[0], s)));
                assert(run_actions(t1, s)
                    == Ok::<StateV, (int, ActionFault)>(apply_action(acts[0], s)));
            },
        }
    } else {
        assert(t0.len() == j && t0[0] == acts[0]);
        assert(t1.len() == j + 1 && t1[0] == acts[0]);
        assert(fault_of(t0[0], s) is None);
        let s1 = apply_action(acts[0], s);
        assert(t0.drop_first() =~= acts.drop_first().take(j - 1));
        assert(t1.drop_first() =~= acts.drop_first().take(j));
        assert(run_actions(acts.drop_first().take(j - 1), s1) is Ok);
        assert(run_actions(acts.drop_first().take(j - 1), s1)->Ok_0 == m);
        lemma_run_snoc(acts.drop_first(), s1, j - 1);
        assert(acts.drop_first()[j - 1] == acts[j]);
        let rsub = run_actions(acts.drop_first().take(j), s1);
        assert(run_actions(t1.drop_first(), s1) == rsub);
        match fault_of(acts[j], m) {
            Some(f) => {
                assert(rsub == Err::<StateV, (int, ActionFault)>((j - 1, f)));
                assert(run_actions(t1, s) == Err::<StateV, (int, ActionFault)>((j, f)));
            },
            None => {
                assert(rsub == Ok::<StateV, (int, ActionFault)>(apply_action(acts[j], m)));
                assert(run_actions(t1, s)
                    == Ok::<StateV, (int, ActionFault)>(apply_action(acts[j], m)));
            },
        }
    }
}

/// A fault inside a prefix is the fault of the whole run.
pub proof fn lemma_run_err(acts: Seq<ActionV>, s: StateV, j: int)
    requires
        0 <= j <= acts.len(),
        run_actions(acts.take(j), s) is Err,
    ensures
        run_actions(acts, s) == run_actions(acts.take(j), s),
    decreases j,
{
    let t0 = acts.take(j);
    assert(t0.len() > 0);
    assert(t0[0] == acts[0]);
    match fault_of(acts[0], s) {
        Some(f) => {
        },
        None => {
            let s1 = apply_action(acts[0], s);
            assert(t0.drop_first() =~= acts.drop_first().take(j - 1));
            lemma_run_err(acts.drop_first(), s1, j - 1);
        },
    }
}

/// A run of the whole list is the run of its full-length prefix.
pub proof fn lemma_run_take_all(acts: Seq<ActionV>, s: StateV)
    ensures
        run_actions(acts.take(acts.len() as int), s) == run_actions(acts, s),
{
    assert(acts.take(acts.len() as int) =~= acts);
}

/// The size-cap a child branch inherits: one more after a full parent
/// block, one less after a parent block under half the cap, unchanged
/// otherwise. The step up saturates at the machine's widest size.
pub open spec fn next_cap(parent_len: nat, cap: nat) -> nat {
    if parent_len == cap {
        if cap == usize::MAX as nat {
            cap
        } else {
            (cap + 1) as nat
        }
    } else if parent_len < cap / 2 {
        (cap - 1) as nat
    } else {
        cap
    }
}

/// Computes the child branch's size-cap from the parent block's action
/// count and the parent's cap.
pub fn child_cap(parent_len: usize, cap: usize) -> (r: usize)
    ensures
        r == next_cap(parent_len as nat, cap as nat),
{
    if parent_len == cap {
        if cap == usize::MAX {
            cap
        } else {
            cap + 1
        }
    } else if parent_len < cap / 2 {
        cap - 1
    } else {
        cap
    }
}

} // verus!
