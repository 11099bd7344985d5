//! Transaction-level inputs the runtime consumes.

use vstd::prelude::*;

verus! {

/// Per-dimension gas budget of a transaction, in the canonical field
/// order.
#[derive(Clone, Copy, Debug, Default, PartialEq, Eq, Hash, Structural)]
pub struct GasBudget {
    /// CPU cycles consumed by bytecode execution.
    pub computation: u64,
    /// Bytes added to active state.
    pub storage: u64,
    /// Storage-rent prepayment.
    pub rent: u64,
    /// Bytes transmitted by validators.
    pub bandwidth: u64,
    /// Cost of verifying zero-knowledge proofs.
    pub proof_verification: u64,
    /// Cost of generating zero-knowledge proofs.
    pub proof_generation: u64,
}

/// A 32-byte object identifier.
#[derive(Clone, Copy, Debug, Default, PartialEq, Eq, Hash)]
pub struct ObjectId(pub [u8; 32]);

impl ObjectId {
    /// Wraps 32 identifier bytes.
    pub fn from_bytes(bytes: [u8; 32]) -> (r: Self)
        ensures
            r.0 == bytes,
    {
        ObjectId(bytes)
    }
}

/// A 32-byte account address.
#[derive(Clone, Copy, Debug, Default, PartialEq, Eq, Hash)]
pub struct Address(pub [u8; 32]);

impl Address {
    /// Wraps 32 address bytes.
    pub fn from_bytes(bytes: [u8; 32]) -> (r: Self)
        ensures
            r.0 == bytes,
    {
        Address(bytes)
    }

    /// The 32 address bytes.
    pub fn to_bytes(&self) -> (r: [u8; 32])
        ensures
            r == self.0,
    {
        self.0
    }
}

} // verus!
