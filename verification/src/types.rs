//! The plain value types of the ledger: account handles, keys, digests,
//! proof tokens, signatures and account records, each a fixed-width byte
//! value or a record of such values, viewed in specifications as byte
//! sequences.

use vstd::prelude::*;

verus! {

/// A 16-byte opaque account handle. Uniqueness is enforced only inside a
/// branch state, by the registration rule.
#[derive(Clone, Copy, Debug)]
pub struct Identity(pub [u8; 16]);

impl Identity {
    /// The handle as a byte sequence.
    pub open spec fn view(&self) -> Seq<u8> {
        self.0@
    }

    /// Byte-for-byte equality of two handles.
    pub fn same(&self, other: &Identity) -> (r: bool)
        ensures
            r == (self@ == other@),
    {
        bytes16_eq(&self.0, &other.0)
    }
}

/// A 32-byte EdDSA (Curve25519) public key, the authorization key of an
/// account and the reward key of a block's miner.
#[derive(Clone, Copy, Debug, Hash)]
pub struct PublicKey(pub [u8; 32]);

impl PublicKey {
    /// The key as a byte sequence.
    pub open spec fn view(&self) -> Seq<u8> {
        self.0@
    }
}

impl PartialEq for PublicKey {
    fn eq(&self, other: &Self) -> (r: bool) {
        bytes32_eq(&self.0, &other.0)
    }
}

impl Eq for PublicKey {

}

impl vstd::std_specs::cmp::PartialEqSpecImpl for PublicKey {
    open spec fn obeys_eq_spec() -> bool {
        true
    }

    open spec fn eq_spec(&self, other: &PublicKey) -> bool {
        self.0@ == other.0@
    }
}

/// A 32-byte digest, the output width of the hashing engine; block hashes
/// and parent references have this shape.
#[derive(Clone, Copy, Debug)]
pub struct Digest(pub [u8; 32]);

impl Digest {
    /// The digest as a byte sequence.
    pub open spec fn view(&self) -> Seq<u8> {
        self.0@
    }

    /// Byte-for-byte equality of two digests.
    pub fn same(&self, other: &Digest) -> (r: bool)
        ensures
            r == (self@ == other@),
    {
        bytes32_eq(&self.0, &other.0)
    }
}

/// An 8-byte opaque token carried by a block for the out-of-scope
/// Sybil-resistance puzzle; this core never interprets it.
#[derive(Clone, Copy, Debug)]
pub struct ProofToken(pub [u8; 8]);

impl ProofToken {
    /// The token as a byte sequence.
    pub open spec fn view(&self) -> Seq<u8> {
        self.0@
    }
}

/// A 64-byte EdDSA signature.
#[derive(Clone, Copy, Debug)]
pub struct Signature(pub [u8; 64]);

impl Signature {
    /// The signature as a byte sequence.
    pub open spec fn view(&self) -> Seq<u8> {
        self.0@
    }
}

/// One account record inside a branch state: the registered key, the
/// balance and the replay counter.
#[derive(Clone, Copy, Debug)]
pub struct Account {
    pub key: PublicKey,
    pub balance: u128,
    pub counter: u64,
}

/// The specification-level image of an account record.
pub ghost struct AccountV {
    pub key: Seq<u8>,
    pub balance: u128,
    pub counter: u64,
}

impl Account {
    /// The record with its key as a byte sequence.
    pub open spec fn view(&self) -> AccountV {
        AccountV { key: self.key@, balance: self.balance, counter: self.counter }
    }
}

/// Byte-for-byte equality of two 16-byte values.
pub fn bytes16_eq(a: &[u8; 16], b: &[u8; 16]) -> (r: bool)
    ensures
        r == (a@ == b@),
{
    let mut i: usize = 0;
    while i < 16
        invariant
            i <= 16,
            forall|j: int| 0 <= j < i ==> a@[j] == b@[j],
        decreases 16 - i,
    {
        if a[i] != b[i] {
            return false;
        }
        i = i + 1;
    }
    proof {
        assert(a@ =~= b@);
    }
    true
}

/// Byte-for-byte equality of two 32-byte values.
pub fn bytes32_eq(a: &[u8; 32], b: &[u8; 32]) -> (r: bool)
    ensures
        r == (a@ == b@),
{
    let mut i: usize = 0;
    while i < 32
        invariant
            i <= 32,
            forall|j: int| 0 <= j < i ==> a@[j] == b@[j],
        decreases 32 - i,
    {
        if a[i] != b[i] {
            return false;
        }
        i = i + 1;
    }
    proof {
        assert(a@ =~= b@);
    }
    true
}

} // verus!
