//! The plain values the aggregator works on.

use vstd::prelude::*;

verus! {

/// Whether an on-chain address names an account or a contract.
#[derive(Clone, Copy, Debug, PartialEq, Eq, Structural)]
pub enum AddressKind {
    Account,
    Contract,
}

/// An on-chain address as plain data: its kind and the 32 bytes that identify
/// it (the account's public key, or the contract's hash).
#[derive(Clone, Copy, Debug)]
pub struct AddressKey {
    pub kind: AddressKind,
    pub key: [u8; 32],
}

/// The identity of an asset: an on-chain address, or a symbol for anything
/// that has none.
#[derive(Debug)]
pub enum AssetId {
    Stellar(AddressKey),
    Other(soroban_sdk::Symbol),
}

/// A price with the time it was sampled at, in seconds.
#[derive(Clone, Copy, Debug, PartialEq, Eq, Structural)]
pub struct PriceData {
    pub price: i128,
    pub timestamp: u64,
}

/// What a feed says when it is asked for its sample at one timestamp.
#[derive(Clone, Copy, Debug, PartialEq, Eq)]
pub enum Answer {
    /// The feed has this sample there.
    Sample(PriceData),
    /// The feed has no sample there.
    Missing,
    /// The feed could not be asked, or what it said could not be read.
    Failed,
}

/// What the aggregator knows of its upstream feed.
#[derive(Debug)]
pub struct OracleConfig {
    /// The address of the source oracle
    pub oracle_id: AddressKey,
    /// The decimals of the source oracle
    pub decimals: u32,
    /// The resolution of the source oracle (in seconds)
    pub resolution: u32,
    /// The base asset of the source oracle
    pub base: AssetId,
}

impl AddressKey {
    /// Whether two addresses are of one kind and hold the same bytes.
    pub fn same(&self, other: &AddressKey) -> (r: bool)
        ensures
            r == (*self == *other),
    {
        let kinds = match (self.kind, other.kind) {
            (AddressKind::Account, AddressKind::Account) => true,
            (AddressKind::Contract, AddressKind::Contract) => true,
            _ => false,
        };
        if !kinds {
            return false;
        }
        let mut i: usize = 0;
        while i < 32
            invariant
                i <= 32,
                forall|j: int| 0 <= j < i ==> self.key[j] == other.key[j],
            decreases 32 - i,
        {
            if self.key[i] != other.key[i] {
                return false;
            }
            i += 1;
        }
        assert(self.key =~= other.key);
        true
    }
}

impl PartialEq for AddressKey {
    /// As [`AddressKey::same`].
    fn eq(&self, other: &AddressKey) -> (r: bool) {
        self.same(other)
    }
}

impl Eq for AddressKey {}

impl vstd::std_specs::cmp::PartialEqSpecImpl for AddressKey {
    open spec fn obeys_eq_spec() -> bool {
        true
    }

    open spec fn eq_spec(&self, other: &AddressKey) -> bool {
        *self == *other
    }
}

impl AssetId {
    /// Whether this asset is the on-chain asset at `address`.
    pub open spec fn is_address(self, address: AddressKey) -> bool {
        self == AssetId::Stellar(address)
    }

    /// Whether this asset is the on-chain asset at `address`. An asset that
    /// goes by a symbol never is.
    pub fn is_stellar(&self, address: &AddressKey) -> (r: bool)
        ensures
            r == self.is_address(*address),
    {
        match self {
            AssetId::Stellar(a) => a.same(address),
            AssetId::Other(_) => false,
        }
    }
}

} // verus!
