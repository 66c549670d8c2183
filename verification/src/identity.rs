//! Who holds something on the ledger: an account or a contract, by its 32-byte key.
use vstd::prelude::*;

verus! {

/// The two kinds of holder that an address on the ledger can denote.
#[derive(Clone, Copy, Debug, PartialEq, Eq, Structural)]
pub enum HolderKind {
    /// An account, identified by its ed25519 public key.
    Account,
    /// A contract, identified by the hash that is its id.
    Contract,
}

/// The payload of a ledger address: the kind of holder and its key.
///
/// Two identities are the same holder exactly when both fields agree, which is what `==`
/// means in every contract of this crate.
#[derive(Clone, Copy, Debug, PartialEq, Eq)]
pub struct Identity {
    pub kind: HolderKind,
    pub key: [u8; 32],
}

impl Identity {
    /// The account with the given public key.
    pub fn account(key: [u8; 32]) -> (id: Identity)
        ensures
            id == (Identity { kind: HolderKind::Account, key }),
    {
        Identity { kind: HolderKind::Account, key }
    }

    /// The contract with the given id.
    pub fn contract(key: [u8; 32]) -> (id: Identity)
        ensures
            id == (Identity { kind: HolderKind::Contract, key }),
    {
        Identity { kind: HolderKind::Contract, key }
    }

    /// Whether `self` and `other` denote the same holder.
    pub fn same(&self, other: &Identity) -> (same: bool)
        ensures
            same == (*self == *other),
    {
        if self.kind != other.kind {
            return false;
        }
        let mut i: usize = 0;
        while i < 32
            invariant
                i <= 32,
                self.kind == other.kind,
                forall|j: int| 0 <= j < i ==> self.key[j] == other.key[j],
            decreases 32 - i,
        {
            if self.key[i] != other.key[i] {
                return false;
            }
            i += 1;
        }
        assert(self.key =~= other.key);
        true
    }
}

} // verus!
