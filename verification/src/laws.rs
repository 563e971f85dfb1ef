//! The ledger's guiding properties, stated once over the specification
//! model and proved from the contracts the executable functions carry.

use vstd::prelude::*;
use crate::action::ActionFault;
use crate::action::ActionV;
use crate::action::apply_action;
use crate::action::fault_of;
use crate::action::payload_bytes;
use crate::action::verify_ok;
use crate::block::BlockV;
use crate::block::block_bytes;
use crate::block::run_actions;
use crate::crypto::ed25519_accepts;
use crate::crypto::sha3_of;
use crate::state::StateV;
use crate::timelines::Reject;
use crate::timelines::TimelinesV;
use crate::timelines::admit_entry;
use crate::timelines::admit_next;
use crate::timelines::admit_outcome;

verus! {

/// Law: a transfer carrying the source's counter plus one, an amount
/// within the balance, an accepted signature and a registered sink goes
/// through; the resulting record carries exactly that counter.
pub proof fn lemma_counter_next_accepted(
    source: Seq<u8>,
    sink: Seq<u8>,
    counter: u64,
    amount: u128,
    signature: Seq<u8>,
    s: StateV,
)
    requires
        s.contains_key(source),
        amount <= s[source].balance,
        counter == s[source].counter + 1,
        ed25519_accepts(s[source].key, payload_bytes(source, sink, counter, amount), signature),
        s.contains_key(sink),
        source != sink ==> s[sink].balance + amount <= u128::MAX,
    ensures
        ({
            let a = ActionV::Transaction { source, sink, counter, amount, signature };
            &&& verify_ok(a, s)
            &&& fault_of(a, s) is None
            &&& apply_action(a, s).contains_key(source)
            &&& apply_action(a, s)[source].counter == counter
        }),
{
}

/// Law (replay protection): once a transfer has gone through, the very
/// same transfer is refused against the resulting state — its counter is
/// no longer the source's counter plus one.
pub proof fn lemma_replay_rejected(
    source: Seq<u8>,
    sink: Seq<u8>,
    counter: u64,
    amount: u128,
    signature: Seq<u8>,
    s: StateV,
)
    requires
        fault_of(ActionV::Transaction { source, sink, counter, amount, signature }, s) is None,
    ensures
        ({
            let a = ActionV::Transaction { source, sink, counter, amount, signature };
            let s2 = apply_action(a, s);
            &&& s2.contains_key(source)
            &&& s2[source].counter == counter
            &&& fault_of(a, s2) is Some
        }),
{
    let a = ActionV::Transaction { source, sink, counter, amount, signature };
    let s2 = apply_action(a, s);
    assert(s2[source].counter == counter);
    assert(counter != s2[source].counter + 1);
}

/// Law (no negative balances): a transfer of more than the source's
/// balance is refused for insufficient balance, whatever its counter and
/// signature; and since every balance is unsigned, no faultless run ever
/// leaves a balance below zero.
pub proof fn lemma_overdraft_rejected(
    source: Seq<u8>,
    sink: Seq<u8>,
    counter: u64,
    amount: u128,
    signature: Seq<u8>,
    s: StateV,
)
    requires
        s.contains_key(source),
        amount > s[source].balance,
    ensures
        fault_of(ActionV::Transaction { source, sink, counter, amount, signature }, s) == Some(
            ActionFault::InsufficientBalance,
        ),
{
}

/// Law: a faultless transfer moves exactly its amount: the source loses
/// it, the sink gains it, and a transfer to oneself changes no balance.
/// With the overdraft rejection this is why no balance ever goes below
/// zero: the only debit is covered.
pub proof fn lemma_transfer_moves_exactly(
    source: Seq<u8>,
    sink: Seq<u8>,
    counter: u64,
    amount: u128,
    signature: Seq<u8>,
    s: StateV,
)
    requires
        fault_of(ActionV::Transaction { source, sink, counter, amount, signature }, s) is None,
    ensures
        ({
            let s2 = apply_action(
                ActionV::Transaction { source, sink, counter, amount, signature },
                s,
            );
            &&& amount <= s[source].balance
            &&& s2.contains_key(source) && s2.contains_key(sink)
            &&& s2[source].key == s[source].key
            &&& s2[source].counter == counter
            &&& source != sink ==> s2[source].balance == s[source].balance - amount
            &&& source != sink ==> s2[sink].balance == s[sink].balance + amount
            &&& source != sink ==> s2[sink].key == s[sink].key
            &&& source != sink ==> s2[sink].counter == s[sink].counter
            &&& source == sink ==> s2[source].balance == s[source].balance
        }),
{
}

/// Law (registration uniqueness): registering a handle succeeds exactly
/// when the handle is absent, puts it into the state, and registering it
/// again is refused as a duplicate.
pub proof fn lemma_registration_unique(id: Seq<u8>, pk: Seq<u8>, s: StateV)
    ensures
        (fault_of(ActionV::AddPublicKey { id, pk }, s) is None) <==> !s.contains_key(id),
        s.contains_key(id) ==> fault_of(ActionV::AddPublicKey { id, pk }, s) == Some(
            ActionFault::DuplicateIdentity,
        ),
        apply_action(ActionV::AddPublicKey { id, pk }, s).contains_key(id),
{
}

/// A faultless action never unregisters a handle.
pub proof fn lemma_apply_keeps_ids(a: ActionV, s: StateV, id: Seq<u8>)
    requires
        s.contains_key(id),
    ensures
        apply_action(a, s).contains_key(id),
{
    match a {
        ActionV::Transaction { source, sink, counter, amount, signature } => {
        },
        ActionV::AddPublicKey { id: id2, pk } => {
        },
    }
}

/// Law (registration uniqueness, descendants): a handle registered in a
/// state stays registered through any faultless run, so registering it
/// again in any descendant state is refused as a duplicate.
pub proof fn lemma_registration_unique_descendant(
    id: Seq<u8>,
    pk: Seq<u8>,
    acts: Seq<ActionV>,
    s: StateV,
)
    requires
        s.contains_key(id),
        run_actions(acts, s) is Ok,
    ensures
        run_actions(acts, s)->Ok_0.contains_key(id),
        fault_of(ActionV::AddPublicKey { id, pk }, run_actions(acts, s)->Ok_0) == Some(
            ActionFault::DuplicateIdentity,
        ),
    decreases acts.len(),
{
    if acts.len() > 0 {
        lemma_apply_keeps_ids(acts[0], s, id);
        lemma_registration_unique_descendant(id, pk, acts.drop_first(), apply_action(acts[0], s));
    }
}

/// Law (branch isolation): two blocks admitted one after the other
/// against the same parent land under different hashes; the first
/// sibling's entry is untouched by the second admission, the parent's
/// entry is untouched by both, and each sibling's state is the run of
/// its own actions from the shared parent snapshot alone.
pub proof fn lemma_branch_isolation(
    t: TimelinesV,
    b1: BlockV,
    b2: BlockV,
    now1: int,
    now2: int,
    ok1: bool,
    ok2: bool,
)
    requires
        b1.prev_hash == b2.prev_hash,
        admit_outcome(t, b1, now1, ok1) is Ok,
        admit_outcome(admit_next(t, b1, now1, ok1), b2, now2, ok2) is Ok,
    ensures
        ({
            let h1 = admit_outcome(t, b1, now1, ok1)->Ok_0;
            let t1 = admit_next(t, b1, now1, ok1);
            let h2 = admit_outcome(t1, b2, now2, ok2)->Ok_0;
            let t2 = admit_next(t1, b2, now2, ok2);
            &&& h1 != h2
            &&& h1 != b1.prev_hash && h2 != b1.prev_hash
            &&& t2.contains_key(h1) && t2.contains_key(h2)
            &&& t2[h1] == admit_entry(t, b1)
            &&& t2[h1].state == run_actions(b1.actions, t[b1.prev_hash].state)->Ok_0
            &&& t2[h2].state == run_actions(b2.actions, t[b1.prev_hash].state)->Ok_0
            &&& t2[b1.prev_hash] == t[b1.prev_hash]
        }),
{
    let h1 = admit_outcome(t, b1, now1, ok1)->Ok_0;
    let t1 = admit_next(t, b1, now1, ok1);
    let h2 = admit_outcome(t1, b2, now2, ok2)->Ok_0;
    let t2 = admit_next(t1, b2, now2, ok2);
    assert(!t.contains_key(h1));
    assert(t.contains_key(b1.prev_hash));
    assert(t1 == t.insert(h1, admit_entry(t, b1)));
    assert(!t1.contains_key(h2));
    assert(t1.contains_key(h1));
    assert(t1[b1.prev_hash] == t[b1.prev_hash]);
    assert(t2 == t1.insert(h2, admit_entry(t1, b2)));
    assert(t2[h1] == admit_entry(t, b1));
    assert(t2[h2] == admit_entry(t1, b2));
    assert(admit_entry(t1, b2).state == run_actions(b2.actions, t1[b2.prev_hash].state)->Ok_0);
}

/// Law (temporal monotonicity): a block whose timestamp is not after its
/// parent's, or not before the present, is refused as badly timestamped.
pub proof fn lemma_temporal_monotonicity(t: TimelinesV, b: BlockV, now: int, proof_ok: bool)
    requires
        t.contains_key(b.prev_hash),
    ensures
        b.timestamp <= t[b.prev_hash].block.timestamp ==> admit_outcome(t, b, now, proof_ok)
            == Err::<Seq<u8>, Reject>(Reject::BadTimestamp),
        b.timestamp as int >= now ==> admit_outcome(t, b, now, proof_ok) == Err::<
            Seq<u8>,
            Reject,
        >(Reject::BadTimestamp),
{
}

/// Running a single action yields its first fault at position zero, or
/// the state it applies to.
pub proof fn lemma_run_single(a: ActionV, s: StateV)
    ensures
        run_actions(seq![a], s) == (match fault_of(a, s) {
            Some(f) => Err::<StateV, (int, ActionFault)>((0int, f)),
            None => Ok::<StateV, (int, ActionFault)>(apply_action(a, s)),
        }),
{
    let acts = seq![a];
    assert(acts.len() == 1);
    assert(acts[0] == a);
    assert(acts.drop_first() =~= Seq::<ActionV>::empty());
    assert(run_actions(Seq::<ActionV>::empty(), apply_action(a, s)) == Ok::<
        StateV,
        (int, ActionFault),
    >(apply_action(a, s)));
}

/// Law (end to end, accepting half): a block carrying one faultless
/// action, timestamped inside the window, within the parent's cap, with
/// the puzzle verdict in its favour and a fresh hash, is admitted; the
/// stored branch state is exactly that action applied to the parent's
/// snapshot, and the parent's own entry stands untouched.
pub proof fn lemma_admit_single_action(t: TimelinesV, b: BlockV, now: int, a: ActionV)
    requires
        b.actions == seq![a],
        t.contains_key(b.prev_hash),
        t[b.prev_hash].block.timestamp < b.timestamp,
        (b.timestamp as int) < now,
        t[b.prev_hash].max_size >= 1,
        fault_of(a, t[b.prev_hash].state) is None,
        !t.contains_key(sha3_of(block_bytes(b))),
    ensures
        ({
            let h = sha3_of(block_bytes(b));
            let t2 = admit_next(t, b, now, true);
            &&& admit_outcome(t, b, now, true) == Ok::<Seq<u8>, Reject>(h)
            &&& t2.contains_key(h)
            &&& t2[h].state == apply_action(a, t[b.prev_hash].state)
            &&& t2[h].block == b
            &&& t2[b.prev_hash] == t[b.prev_hash]
        }),
{
    lemma_run_single(a, t[b.prev_hash].state);
    assert(b.actions.len() == 1);
}

/// Law (end to end, replaying half): a block whose first action is a
/// transfer from a registered source with a covered amount but a counter
/// other than the source's counter plus one — the very shape a re-sent
/// transfer takes — is refused as an invalid action at position zero for
/// its counter, and the forest stands untouched.
pub proof fn lemma_replay_block_rejected(
    t: TimelinesV,
    b: BlockV,
    now: int,
    proof_ok: bool,
    source: Seq<u8>,
    sink: Seq<u8>,
    counter: u64,
    amount: u128,
    signature: Seq<u8>,
)
    requires
        b.actions.len() >= 1,
        b.actions[0] == (ActionV::Transaction { source, sink, counter, amount, signature }),
        t.contains_key(b.prev_hash),
        t[b.prev_hash].block.timestamp < b.timestamp,
        (b.timestamp as int) < now,
        b.actions.len() <= t[b.prev_hash].max_size,
        t[b.prev_hash].state.contains_key(source),
        amount <= t[b.prev_hash].state[source].balance,
        counter != t[b.prev_hash].state[source].counter + 1,
    ensures
        admit_outcome(t, b, now, proof_ok) == (Err::<Seq<u8>, Reject>(Reject::InvalidAction {
            index: 0,
            cause: ActionFault::BadCounter,
        })),
        admit_next(t, b, now, proof_ok) == t,
{
    assert(fault_of(b.actions[0], t[b.prev_hash].state) == Some(ActionFault::BadCounter));
    assert(run_actions(b.actions, t[b.prev_hash].state) == Err::<StateV, (int, ActionFault)>((
        0int,
        ActionFault::BadCounter,
    )));
}

} // verus!
