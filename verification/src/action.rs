//! Single ledger operations: transfers and account registrations, their
//! validation against a branch state, their execution on a snapshot, and
//! their canonical byte encoding.

use vstd::prelude::*;
use crate::crypto::ed25519_accepts;
use crate::crypto::ed25519_check;
use crate::encoding::push_bytes;
use crate::encoding::push_u128_be;
use crate::encoding::push_u64_be;
use crate::encoding::u128_be;
use crate::encoding::u64_be;
use crate::state::LedgerState;
use crate::state::StateV;
use crate::types::Account;
use crate::types::AccountV;
use crate::types::Identity;
use crate::types::PublicKey;
use crate::types::Signature;

verus! {

/// One ledger operation.
#[derive(Clone, Copy, Debug)]
pub enum Action {
    /// Moves `amount` from `source` to `sink`, authorized by a signature
    /// from `source`'s registered key over the canonical payload.
    Transaction {
        source: Identity,
        sink: Identity,
        counter: u64,
        amount: u128,
        signature: Signature,
    },
    /// Registers a new account `id` with zero balance and zero counter.
    AddPublicKey { id: Identity, pk: PublicKey },
}

/// The specification-level image of an action.
pub ghost enum ActionV {
    Transaction { source: Seq<u8>, sink: Seq<u8>, counter: u64, amount: u128, signature: Seq<u8> },
    AddPublicKey { id: Seq<u8>, pk: Seq<u8> },
}

impl Action {
    /// The action with every field as a byte sequence.
    pub open spec fn view(&self) -> ActionV {
        match *self {
            Action::Transaction { source, sink, counter, amount, signature } => {
                ActionV::Transaction {
                    source: source@,
                    sink: sink@,
                    counter,
                    amount,
                    signature: signature@,
                }
            },
            Action::AddPublicKey { id, pk } => ActionV::AddPublicKey { id: id@, pk: pk@ },
        }
    }
}

/// Why an action is refused.
#[derive(Clone, Copy, Debug, PartialEq, Eq)]
pub enum ActionFault {
    /// A transfer whose source handle is not registered.
    UnknownSource,
    /// A transfer of more than the source's balance.
    InsufficientBalance,
    /// A transfer whose counter is not the source's counter plus one.
    BadCounter,
    /// A transfer whose signature the source's key does not accept.
    BadSignature,
    /// A registration of a handle already present.
    DuplicateIdentity,
    /// A transfer whose sink handle is not registered: an executor-level
    /// fault that aborts the enclosing block.
    UnknownSink,
    /// A transfer that would carry the sink's balance past the widest
    /// representable amount: a machine limit, handled fail-closed.
    BalanceOverflow,
}

/// The exact bytes a transfer's signature covers:
/// `source(16) || sink(16) || counter(8) || amount(16)`.
pub open spec fn payload_bytes(source: Seq<u8>, sink: Seq<u8>, counter: u64, amount: u128) -> Seq<
    u8,
> {
    source + sink + u64_be(counter) + u128_be(amount)
}

/// What the action validator checks (sink existence is not among it):
/// a registration wants an unused handle; a transfer wants a registered
/// source with enough balance, the next counter, and an accepted
/// signature over the canonical payload.
pub open spec fn verify_ok(a: ActionV, s: StateV) -> bool {
    match a {
        ActionV::Transaction { source, sink, counter, amount, signature } => {
            &&& s.contains_key(source)
            &&& s[source].balance >= amount
            &&& counter == s[source].counter + 1
            &&& ed25519_accepts(s[source].key, payload_bytes(source, sink, counter, amount), signature)
        },
        ActionV::AddPublicKey { id, pk } => !s.contains_key(id),
    }
}

/// The first fault an action meets against a state, in the order the
/// checks run: validator checks first, then the executor-level sink and
/// overflow checks. `None` means the action goes through.
pub open spec fn fault_of(a: ActionV, s: StateV) -> Option<ActionFault> {
    match a {
        ActionV::Transaction { source, sink, counter, amount, signature } => {
            if !s.contains_key(source) {
                Some(ActionFault::UnknownSource)
            } else if s[source].balance < amount {
                Some(ActionFault::InsufficientBalance)
            } else if counter != s[source].counter + 1 {
                Some(ActionFault::BadCounter)
            } else if !ed25519_accepts(
                s[source].key,
                payload_bytes(source, sink, counter, amount),
                signature,
            ) {
                Some(ActionFault::BadSignature)
            } else if !s.contains_key(sink) {
                Some(ActionFault::UnknownSink)
            } else if source != sink && s[sink].balance + amount > u128::MAX {
                Some(ActionFault::BalanceOverflow)
            } else {
                None
            }
        },
        ActionV::AddPublicKey { id, pk } => {
            if s.contains_key(id) {
                Some(ActionFault::DuplicateIdentity)
            } else {
                None
            }
        },
    }
}

/// The state after a faultless action: a registration adds a fresh
/// zeroed record; a transfer debits the source, steps its counter, then
/// credits the sink.
pub open spec fn apply_action(a: ActionV, s: StateV) -> StateV
    recommends
        fault_of(a, s) is None,
{
    match a {
        ActionV::Transaction { source, sink, counter, amount, signature } => {
            let debited = s.insert(
                source,
                AccountV {
                    key: s[source].key,
                    balance: (s[source].balance - amount) as u128,
                    counter: (s[source].counter + 1) as u64,
                },
            );
            debited.insert(
                sink,
                AccountV {
                    key: debited[sink].key,
                    balance: (debited[sink].balance + amount) as u128,
                    counter: debited[sink].counter,
                },
            )
        },
        ActionV::AddPublicKey { id, pk } => {
            s.insert(id, AccountV { key: pk, balance: 0, counter: 0 })
        },
    }
}

impl Action {
    /// Appends the canonical signed payload of a transfer to `out`.
    fn push_payload(
        out: &mut Vec<u8>,
        source: &Identity,
        sink: &Identity,
        counter: u64,
        amount: u128,
    )
        ensures
            final(out)@ == old(out)@ + payload_bytes(source@, sink@, counter, amount),
    {
        push_bytes(out, &source.0);
        push_bytes(out, &sink.0);
        push_u64_be(out, counter);
        push_u128_be(out, amount);
        proof {
            assert(out@ =~= old(out)@ + payload_bytes(source@, sink@, counter, amount));
        }
    }

    /// Whether the action is valid against `state`, per the validator's
    /// checks alone.
    pub fn verify(&self, state: &LedgerState) -> (r: bool)
        requires
            state.wf(),
        ensures
            r == verify_ok(self@, state@),
    {
        match self {
            Action::Transaction { source, sink, counter, amount, signature } => {
                match state.get(source) {
                    Some(account) => {
                        if account.balance < *amount {
                            return false;
                        }
                        if account.counter == u64::MAX {
                            return false;
                        }
                        if *counter != account.counter + 1 {
                            return false;
                        }
                        let mut payload: Vec<u8> = Vec::new();
                        Self::push_payload(&mut payload, source, sink, *counter, *amount);
                        ed25519_check(&account.key.0, &payload, &signature.0)
                    },
                    None => false,
                }
            },
            Action::AddPublicKey { id, pk } => !state.contains(id),
        }
    }

    /// The first fault this action meets against `state`, validator
    /// checks first and executor-level checks after, or `None` if it
    /// would go through whole.
    pub fn fault(&self, state: &LedgerState) -> (r: Option<ActionFault>)
        requires
            state.wf(),
        ensures
            r == fault_of(self@, state@),
    {
        match self {
            Action::Transaction { source, sink, counter, amount, signature } => {
                let account = match state.get(source) {
                    Some(a) => *a,
                    None => {
                        return Some(ActionFault::UnknownSource);
                    },
                };
                if account.balance < *amount {
                    return Some(ActionFault::InsufficientBalance);
                }
                if account.counter == u64::MAX || *counter != account.counter + 1 {
                    return Some(ActionFault::BadCounter);
                }
                let mut payload: Vec<u8> = Vec::new();
                Self::push_payload(&mut payload, source, sink, *counter, *amount);
                if !ed25519_check(&account.key.0, &payload, &signature.0) {
                    return Some(ActionFault::BadSignature);
                }
                let sink_account = match state.get(sink) {
                    Some(a) => *a,
                    None => {
                        return Some(ActionFault::UnknownSink);
                    },
                };
                if !source.same(sink) && sink_account.balance.checked_add(*amount).is_none() {
                    return Some(ActionFault::BalanceOverflow);
                }
                None
            },
            Action::AddPublicKey { id, pk } => {
                if state.contains(id) {
                    Some(ActionFault::DuplicateIdentity)
                } else {
                    None
                }
            },
        }
    }

    /// Runs the action on `state`, all or nothing. Meant to follow a
    /// successful `verify`; the result is false exactly on the
    /// executor-level faults (unknown sink, overflowing credit), and then
    /// the state is untouched.
    pub fn perform(&self, state: &mut LedgerState) -> (r: bool)
        requires
            old(state).wf(),
            verify_ok(self@, old(state)@),
        ensures
            final(state).wf(),
            r == (fault_of(self@, old(state)@) is None),
            r ==> final(state)@ == apply_action(self@, old(state)@),
            !r ==> final(state)@ == old(state)@,
    {
        match self {
            Action::Transaction { source, sink, counter, amount, signature } => {
                let source_account = *state.get(source).unwrap();
                match state.get(sink) {
                    None => false,
                    Some(sink_account_ref) => {
                        let sink_account = *sink_account_ref;
                        let debited = Account {
                            key: source_account.key,
                            balance: source_account.balance - *amount,
                            counter: source_account.counter + 1,
                        };
                        if source.same(sink) {
                            state.put(
                                *source,
                                Account {
                                    key: debited.key,
                                    balance: debited.balance + *amount,
                                    counter: debited.counter,
                                },
                            );
                            proof {
                                assert(state@ =~= apply_action(self@, old(state)@));
                            }
                            true
                        } else {
                            match sink_account.balance.checked_add(*amount) {
                                Some(credited) => {
                                    state.put(*source, debited);
                                    state.put(
                                        *sink,
                                        Account {
                                            key: sink_account.key,
                                            balance: credited,
                                            counter: sink_account.counter,
                                        },
                                    );
                                    proof {
                                        assert(state@ =~= apply_action(self@, old(state)@));
                                    }
                                    true
                                },
                                None => false,
                            }
                        }
                    },
                }
            },
            Action::AddPublicKey { id, pk } => {
                state.put(*id, Account { key: *pk, balance: 0, counter: 0 });
                true
            },
        }
    }

    /// The canonical byte encoding of the action, as hashed into its
    /// block: a discriminant byte, then the fixed-width fields.
    pub fn to_bytes(&self) -> (r: Vec<u8>)
        ensures
            r@ == action_bytes(self@),
    {
        let mut out: Vec<u8> = Vec::new();
        match self {
            Action::Transaction { source, sink, counter, amount, signature } => {
                out.push(0u8);
                Self::push_payload(&mut out, source, sink, *counter, *amount);
                push_bytes(&mut out, &signature.0);
            },
            Action::AddPublicKey { id, pk } => {
                out.push(1u8);
                push_bytes(&mut out, &id.0);
                push_bytes(&mut out, &pk.0);
            },
        }
        proof {
            assert(out@ =~= action_bytes(self@));
        }
        out
    }
}

/// The canonical byte encoding of an action: discriminant `0` for a
/// transfer (payload then signature), `1` for a registration (handle
/// then key).
pub open spec fn action_bytes(a: ActionV) -> Seq<u8> {
    match a {
        ActionV::Transaction { source, sink, counter, amount, signature } => {
            seq![0u8] + payload_bytes(source, sink, counter, amount) + signature
        },
        ActionV::AddPublicKey { id, pk } => seq![1u8] + id + pk,
    }
}

} // verus!
