use ed25519_dalek::Signer;
use ed25519_dalek::SigningKey;
use timelines::action::Action;
use timelines::action::ActionFault;
use timelines::block::Block;
use timelines::block::child_cap;
use timelines::crypto::hash;
use timelines::state::LedgerState;
use timelines::timelines::BranchEntry;
use timelines::timelines::Reject;
use timelines::timelines::Timelines;
use timelines::types::Account;
use timelines::types::Digest;
use timelines::types::Identity;
use timelines::types::ProofToken;
use timelines::types::PublicKey;
use timelines::types::Signature;

fn ident(b: u8) -> Identity {
    Identity([b; 16])
}

fn keypair(seed: u8) -> (SigningKey, PublicKey) {
    let sk = SigningKey::from_bytes(&[seed; 32]);
    let pk = PublicKey(sk.verifying_key().to_bytes());
    (sk, pk)
}

fn payload(source: &Identity, sink: &Identity, counter: u64, amount: u128) -> Vec<u8> {
    let mut v = Vec::new();
    v.extend_from_slice(&source.0);
    v.extend_from_slice(&sink.0);
    v.extend_from_slice(&counter.to_be_bytes());
    v.extend_from_slice(&amount.to_be_bytes());
    v
}

fn signed_transfer(
    sk: &SigningKey,
    source: Identity,
    sink: Identity,
    counter: u64,
    amount: u128,
) -> Action {
    let sig = sk.sign(&payload(&source, &sink, counter, amount));
    Action::Transaction { source, sink, counter, amount, signature: Signature(sig.to_bytes()) }
}

/// A forest holding one genesis branch whose state has account A (balance
/// 100, counter 0) and account B (balance 0, counter 0), under cap `cap`.
fn genesis_setup(cap: usize) -> (Timelines, Digest, SigningKey, SigningKey, Identity, Identity) {
    let (ska, pka) = keypair(1);
    let (skb, pkb) = keypair(2);
    let a = ident(10);
    let b = ident(11);
    let mut st = LedgerState::new();
    st.put(a, Account { key: pka, balance: 100, counter: 0 });
    st.put(b, Account { key: pkb, balance: 0, counter: 0 });
    let (_, miner_pk) = keypair(9);
    let gblock = Block {
        prev_hash: Digest([0; 32]),
        proof_token: ProofToken([0; 8]),
        miner_pk,
        timestamp: 1_000,
        actions: Vec::new(),
    };
    let ghash = hash(&gblock.to_bytes());
    let mut tl = Timelines::new();
    assert!(tl.insert_entry(ghash, BranchEntry { block: gblock, state: st, max_size: cap }));
    (tl, ghash, ska, skb, a, b)
}

fn block_at(prev: Digest, token: u8, timestamp: i64, actions: Vec<Action>) -> Block {
    let (_, miner_pk) = keypair(9);
    Block { prev_hash: prev, proof_token: ProofToken([token; 8]), miner_pk, timestamp, actions }
}

#[test]
fn state_put_get() {
    let (_, pka) = keypair(1);
    let a = ident(10);
    let mut st = LedgerState::new();
    assert!(!st.contains(&a));
    st.put(a, Account { key: pka, balance: 7, counter: 3 });
    assert!(st.contains(&a));
    let rec = st.get(&a).unwrap();
    assert_eq!(rec.balance, 7);
    assert_eq!(rec.counter, 3);
    assert!(rec.key == pka);
    assert!(st.get(&ident(12)).is_none());
}

#[test]
fn add_key_encoding_exact() {
    let action = Action::AddPublicKey { id: ident(3), pk: PublicKey([5; 32]) };
    let mut expected = vec![1u8];
    expected.extend_from_slice(&[3; 16]);
    expected.extend_from_slice(&[5; 32]);
    assert_eq!(action.to_bytes(), expected);
}

#[test]
fn transfer_encoding_exact() {
    let action = Action::Transaction {
        source: ident(10),
        sink: ident(11),
        counter: 1,
        amount: 40,
        signature: Signature([7; 64]),
    };
    let mut expected = vec![0u8];
    expected.extend_from_slice(&[10; 16]);
    expected.extend_from_slice(&[11; 16]);
    expected.extend_from_slice(&[0, 0, 0, 0, 0, 0, 0, 1]);
    let mut amount_bytes = [0u8; 16];
    amount_bytes[15] = 40;
    expected.extend_from_slice(&amount_bytes);
    expected.extend_from_slice(&[7; 64]);
    assert_eq!(action.to_bytes(), expected);
}

#[test]
fn block_encoding_leaves_timestamp_out() {
    let early = block_at(Digest([9; 32]), 4, 1_000, Vec::new());
    let late = block_at(Digest([9; 32]), 4, 2_000, Vec::new());
    assert_eq!(early.to_bytes(), late.to_bytes());
    let mut expected = Vec::new();
    expected.extend_from_slice(&[9; 32]);
    expected.extend_from_slice(&[4; 8]);
    expected.extend_from_slice(&keypair(9).1.0);
    assert_eq!(early.to_bytes(), expected);
}

#[test]
fn transfer_accepted_and_performed() {
    let (ska, pka) = keypair(1);
    let (_, pkb) = keypair(2);
    let a = ident(10);
    let b = ident(11);
    let mut st = LedgerState::new();
    st.put(a, Account { key: pka, balance: 100, counter: 0 });
    st.put(b, Account { key: pkb, balance: 0, counter: 0 });
    let action = signed_transfer(&ska, a, b, 1, 40);
    assert!(action.verify(&st));
    assert_eq!(action.fault(&st), None);
    assert!(action.perform(&mut st));
    let ra = st.get(&a).unwrap();
    assert_eq!(ra.balance, 60);
    assert_eq!(ra.counter, 1);
    let rb = st.get(&b).unwrap();
    assert_eq!(rb.balance, 40);
    assert_eq!(rb.counter, 0);
}

#[test]
fn replay_same_counter_rejected() {
    let (_, pka) = keypair(1);
    let (ska, _) = keypair(1);
    let (_, pkb) = keypair(2);
    let a = ident(10);
    let b = ident(11);
    let mut st = LedgerState::new();
    st.put(a, Account { key: pka, balance: 100, counter: 0 });
    st.put(b, Account { key: pkb, balance: 0, counter: 0 });
    let action = signed_transfer(&ska, a, b, 1, 40);
    assert!(action.perform(&mut st));
    assert!(!action.verify(&st));
    assert_eq!(action.fault(&st), Some(ActionFault::BadCounter));
}

#[test]
fn overdraft_rejected() {
    let (ska, pka) = keypair(1);
    let a = ident(10);
    let b = ident(11);
    let mut st = LedgerState::new();
    st.put(a, Account { key: pka, balance: 100, counter: 0 });
    let action = signed_transfer(&ska, a, b, 1, 101);
    assert!(!action.verify(&st));
    assert_eq!(action.fault(&st), Some(ActionFault::InsufficientBalance));
}

#[test]
fn wrong_counter_rejected() {
    let (ska, pka) = keypair(1);
    let a = ident(10);
    let b = ident(11);
    let mut st = LedgerState::new();
    st.put(a, Account { key: pka, balance: 100, counter: 0 });
    let gap = signed_transfer(&ska, a, b, 2, 10);
    assert_eq!(gap.fault(&st), Some(ActionFault::BadCounter));
    let stale = signed_transfer(&ska, a, b, 0, 10);
    assert_eq!(stale.fault(&st), Some(ActionFault::BadCounter));
}

#[test]
fn bad_signature_rejected() {
    let (_, pka) = keypair(1);
    let (skb, _) = keypair(2);
    let a = ident(10);
    let b = ident(11);
    let mut st = LedgerState::new();
    st.put(a, Account { key: pka, balance: 100, counter: 0 });
    st.put(b, Account { key: pka, balance: 0, counter: 0 });
    let forged = signed_transfer(&skb, a, b, 1, 40);
    assert!(!forged.verify(&st));
    assert_eq!(forged.fault(&st), Some(ActionFault::BadSignature));
}

#[test]
fn unknown_source_rejected() {
    let (ska, _) = keypair(1);
    let st = LedgerState::new();
    let action = signed_transfer(&ska, ident(10), ident(11), 1, 40);
    assert!(!action.verify(&st));
    assert_eq!(action.fault(&st), Some(ActionFault::UnknownSource));
}

#[test]
fn unknown_sink_is_executor_fault() {
    let (ska, pka) = keypair(1);
    let a = ident(10);
    let d = ident(13);
    let mut st = LedgerState::new();
    st.put(a, Account { key: pka, balance: 100, counter: 0 });
    let action = signed_transfer(&ska, a, d, 1, 40);
    assert!(action.verify(&st));
    assert_eq!(action.fault(&st), Some(ActionFault::UnknownSink));
    assert!(!action.perform(&mut st));
    let ra = st.get(&a).unwrap();
    assert_eq!(ra.balance, 100);
    assert_eq!(ra.counter, 0);
}

#[test]
fn self_transfer_keeps_balance() {
    let (ska, pka) = keypair(1);
    let a = ident(10);
    let mut st = LedgerState::new();
    st.put(a, Account { key: pka, balance: 100, counter: 0 });
    let action = signed_transfer(&ska, a, a, 1, 40);
    assert!(action.verify(&st));
    assert!(action.perform(&mut st));
    let ra = st.get(&a).unwrap();
    assert_eq!(ra.balance, 100);
    assert_eq!(ra.counter, 1);
}

#[test]
fn registration_unique() {
    let (_, pka) = keypair(1);
    let (_, pkc) = keypair(3);
    let a = ident(10);
    let c = ident(12);
    let mut st = LedgerState::new();
    st.put(a, Account { key: pka, balance: 100, counter: 0 });
    let again = Action::AddPublicKey { id: a, pk: pka };
    assert!(!again.verify(&st));
    assert_eq!(again.fault(&st), Some(ActionFault::DuplicateIdentity));
    let fresh = Action::AddPublicKey { id: c, pk: pkc };
    assert!(fresh.verify(&st));
    assert_eq!(fresh.fault(&st), None);
    assert!(fresh.perform(&mut st));
    let rc = st.get(&c).unwrap();
    assert_eq!(rc.balance, 0);
    assert_eq!(rc.counter, 0);
    assert!(rc.key == pkc);
    assert_eq!(fresh.fault(&st), Some(ActionFault::DuplicateIdentity));
}

#[test]
fn size_cap_drift_values() {
    assert_eq!(child_cap(10, 10), 11);
    assert_eq!(child_cap(4, 10), 9);
    assert_eq!(child_cap(7, 10), 10);
    assert_eq!(child_cap(5, 10), 10);
    assert_eq!(child_cap(0, 0), 1);
}

#[test]
fn end_to_end_transfer_then_replay() {
    let (mut tl, ghash, ska, _, a, b) = genesis_setup(10);
    let transfer = signed_transfer(&ska, a, b, 1, 40);
    let block1 = block_at(ghash, 1, 2_000, vec![transfer]);
    let h1 = match tl.admit_at(block1, 10_000, true) {
        Ok(h) => h,
        Err(e) => panic!("block refused: {:?}", e),
    };
    {
        let entry = tl.get(&h1).unwrap();
        let ra = entry.state.get(&a).unwrap();
        assert_eq!(ra.balance, 60);
        assert_eq!(ra.counter, 1);
        let rb = entry.state.get(&b).unwrap();
        assert_eq!(rb.balance, 40);
    }
    let replay = signed_transfer(&ska, a, b, 1, 40);
    let block2 = block_at(h1, 2, 3_000, vec![replay]);
    let verdict = tl.admit_at(block2, 10_000, true).unwrap_err();
    assert_eq!(verdict, Reject::InvalidAction { index: 0, cause: ActionFault::BadCounter });
    let entry = tl.get(&h1).unwrap();
    let ra = entry.state.get(&a).unwrap();
    assert_eq!(ra.balance, 60);
    assert_eq!(ra.counter, 1);
}

#[test]
fn unknown_parent_rejected() {
    let (mut tl, _, _, _, _, _) = genesis_setup(10);
    let orphan = block_at(Digest([42; 32]), 1, 2_000, Vec::new());
    assert_eq!(tl.admit_at(orphan, 10_000, true).unwrap_err(), Reject::UnknownParent);
}

#[test]
fn timestamp_not_after_parent_rejected() {
    let (mut tl, ghash, _, _, _, _) = genesis_setup(10);
    let equal = block_at(ghash, 1, 1_000, Vec::new());
    assert_eq!(tl.admit_at(equal, 10_000, true).unwrap_err(), Reject::BadTimestamp);
    let earlier = block_at(ghash, 1, 999, Vec::new());
    assert_eq!(tl.admit_at(earlier, 10_000, true).unwrap_err(), Reject::BadTimestamp);
}

#[test]
fn timestamp_not_before_present_rejected() {
    let (mut tl, ghash, _, _, _, _) = genesis_setup(10);
    let at_present = block_at(ghash, 1, 2_000, Vec::new());
    assert_eq!(tl.admit_at(at_present, 2_000, true).unwrap_err(), Reject::BadTimestamp);
    let ahead = block_at(ghash, 1, 3_000, Vec::new());
    assert_eq!(tl.admit_at(ahead, 2_000, true).unwrap_err(), Reject::BadTimestamp);
}

#[test]
fn oversized_block_rejected() {
    let (mut tl, ghash, _, _, _, _) = genesis_setup(1);
    let (_, pkc) = keypair(3);
    let (_, pkd) = keypair(4);
    let two = vec![
        Action::AddPublicKey { id: ident(12), pk: pkc },
        Action::AddPublicKey { id: ident(13), pk: pkd },
    ];
    let block = block_at(ghash, 1, 2_000, two);
    assert_eq!(tl.admit_at(block, 10_000, true).unwrap_err(), Reject::SizeCapExceeded);
}

#[test]
fn proof_verdict_respected() {
    let (mut tl, ghash, _, _, _, _) = genesis_setup(10);
    let block = block_at(ghash, 1, 2_000, Vec::new());
    assert_eq!(tl.admit_at(block, 10_000, false).unwrap_err(), Reject::ProofRejected);
    let again = block_at(ghash, 1, 2_000, Vec::new());
    assert!(tl.admit_at(again, 10_000, true).is_ok());
}

#[test]
fn duplicate_block_hash_rejected() {
    let (mut tl, ghash, _, _, _, _) = genesis_setup(10);
    let (_, pkc) = keypair(3);
    let first = block_at(ghash, 1, 2_000, vec![Action::AddPublicKey { id: ident(12), pk: pkc }]);
    assert!(tl.admit_at(first, 10_000, true).is_ok());
    let same_bytes = block_at(
        ghash,
        1,
        3_000,
        vec![Action::AddPublicKey { id: ident(12), pk: pkc }],
    );
    assert_eq!(tl.admit_at(same_bytes, 10_000, true).unwrap_err(), Reject::DuplicateBlockHash);
}

#[test]
fn sibling_branches_stay_independent() {
    let (mut tl, ghash, ska, _, a, b) = genesis_setup(10);
    let (_, pkc) = keypair(3);
    let spend = block_at(ghash, 1, 2_000, vec![signed_transfer(&ska, a, b, 1, 40)]);
    let register = block_at(ghash, 2, 2_500, vec![Action::AddPublicKey { id: ident(12), pk: pkc }]);
    let h1 = tl.admit_at(spend, 10_000, true).unwrap();
    let h2 = tl.admit_at(register, 10_000, true).unwrap();
    assert!(h1.0 != h2.0);
    let spent = tl.get(&h1).unwrap();
    assert_eq!(spent.state.get(&a).unwrap().balance, 60);
    assert!(spent.state.get(&ident(12)).is_none());
    let registered = tl.get(&h2).unwrap();
    assert_eq!(registered.state.get(&a).unwrap().balance, 100);
    assert_eq!(registered.state.get(&a).unwrap().counter, 0);
    assert!(registered.state.get(&ident(12)).is_some());
    let parent = tl.get(&ghash).unwrap();
    assert_eq!(parent.state.get(&a).unwrap().balance, 100);
}

#[test]
fn cap_drifts_through_admission() {
    let (mut tl, ghash, _, _, _, _) = genesis_setup(0);
    let child = block_at(ghash, 1, 2_000, Vec::new());
    let h1 = tl.admit_at(child, 10_000, true).unwrap();
    assert_eq!(tl.get(&h1).unwrap().max_size, 1);
    let (_, pkc) = keypair(3);
    let full = block_at(h1, 2, 3_000, vec![Action::AddPublicKey { id: ident(12), pk: pkc }]);
    let h2 = tl.admit_at(full, 10_000, true).unwrap();
    assert_eq!(tl.get(&h2).unwrap().max_size, 1);
    let after_full = block_at(h2, 3, 4_000, Vec::new());
    let h3 = tl.admit_at(after_full, 10_000, true).unwrap();
    assert_eq!(tl.get(&h3).unwrap().max_size, 2);
}

#[test]
fn insert_entry_never_overwrites() {
    let (mut tl, ghash, _, _, a, _) = genesis_setup(10);
    let (_, pk) = keypair(5);
    let mut other = LedgerState::new();
    other.put(a, Account { key: pk, balance: 1, counter: 9 });
    let stray = block_at(Digest([1; 32]), 3, 500, Vec::new());
    assert!(!tl.insert_entry(ghash, BranchEntry { block: stray, state: other, max_size: 2 }));
    assert_eq!(tl.get(&ghash).unwrap().state.get(&a).unwrap().balance, 100);
}

#[test]
fn admit_now_uses_the_clock() {
    let (mut tl, ghash, ska, _, a, b) = genesis_setup(10);
    let block = block_at(ghash, 1, 2_000, vec![signed_transfer(&ska, a, b, 1, 40)]);
    let h = tl.admit_now(block, true).unwrap();
    assert_eq!(tl.get(&h).unwrap().state.get(&a).unwrap().balance, 60);
    let ahead = block_at(ghash, 2, i64::MAX, Vec::new());
    assert_eq!(tl.admit_now(ahead, true).unwrap_err(), Reject::BadTimestamp);
}

#[test]
fn public_key_equality_is_by_bytes() {
    let (_, pk1) = keypair(1);
    let (_, pk1b) = keypair(1);
    let (_, pk2) = keypair(2);
    assert!(pk1 == pk1b);
    assert!(!(pk1 == pk2));
}

#[test]
fn hashes_lists_every_branch() {
    let (mut tl, ghash, _, _, _, _) = genesis_setup(10);
    let (_, pkc) = keypair(3);
    let child = block_at(ghash, 1, 2_000, vec![Action::AddPublicKey { id: ident(12), pk: pkc }]);
    let h1 = tl.admit_at(child, 10_000, true).unwrap();
    let all = tl.hashes();
    assert_eq!(all.len(), 2);
    assert!(all.iter().any(|d| d.0 == ghash.0));
    assert!(all.iter().any(|d| d.0 == h1.0));
}

#[test]
fn credit_overflow_rejected() {
    let (ska, pka) = keypair(1);
    let (_, pkb) = keypair(2);
    let a = ident(10);
    let b = ident(11);
    let mut st = LedgerState::new();
    st.put(a, Account { key: pka, balance: 100, counter: 0 });
    st.put(b, Account { key: pkb, balance: u128::MAX, counter: 0 });
    let action = signed_transfer(&ska, a, b, 1, 1);
    assert!(action.verify(&st));
    assert_eq!(action.fault(&st), Some(ActionFault::BalanceOverflow));
    assert!(!action.perform(&mut st));
    assert_eq!(st.get(&a).unwrap().balance, 100);
    assert_eq!(st.get(&a).unwrap().counter, 0);
}
