//! Multi-dimensional gas accounting.  A transaction carries a budget
//! per dimension; every charge is against one dimension, and the
//! transaction aborts on the first dimension exhausted: unused budget
//! in one dimension never pays for another.  Charging zero never
//! aborts and changes nothing.

use crate::bytecode::GasDimension;
use crate::runtime::error::{AbortReason, VMError};
use crate::transaction::GasBudget;
use vstd::prelude::*;

verus! {

/// Remaining budget per dimension, in the order of [`GasBudget`]'s
/// fields.
#[derive(Clone, Copy, Debug, Default, PartialEq, Eq, Hash, Structural)]
pub struct GasTracker {
    /// Remaining computation budget.
    pub computation: u64,
    /// Remaining state-storage budget.
    pub storage: u64,
    /// Remaining storage-rent budget.
    pub rent: u64,
    /// Remaining bandwidth budget.
    pub bandwidth: u64,
    /// Remaining proof-verification budget.
    pub proof_verification: u64,
    /// Remaining proof-generation budget.
    pub proof_generation: u64,
}

impl GasTracker {
    /// The remaining budget of `dimension`.
    pub open spec fn spec_remaining(self, dimension: GasDimension) -> u64 {
        match dimension {
            GasDimension::Computation => self.computation,
            GasDimension::Storage => self.storage,
            GasDimension::Rent => self.rent,
            GasDimension::Bandwidth => self.bandwidth,
            GasDimension::ProofVerification => self.proof_verification,
            GasDimension::ProofGeneration => self.proof_generation,
        }
    }

    /// The tracker with `dimension`'s remaining budget set to `value`
    /// and every other dimension unchanged.
    pub open spec fn with_remaining(self, dimension: GasDimension, value: u64) -> GasTracker {
        match dimension {
            GasDimension::Computation => GasTracker { computation: value, ..self },
            GasDimension::Storage => GasTracker { storage: value, ..self },
            GasDimension::Rent => GasTracker { rent: value, ..self },
            GasDimension::Bandwidth => GasTracker { bandwidth: value, ..self },
            GasDimension::ProofVerification => GasTracker { proof_verification: value, ..self },
            GasDimension::ProofGeneration => GasTracker { proof_generation: value, ..self },
        }
    }

    /// Charging `amount` against `dimension`: the tracker with that
    /// dimension reduced by `amount`, or the out-of-gas abort for the
    /// dimension when `amount` exceeds its remaining budget.
    pub open spec fn spec_charge(self, dimension: GasDimension, amount: u64) -> Result<GasTracker, VMError> {
        if amount <= self.spec_remaining(dimension) {
            Ok(self.with_remaining(dimension, (self.spec_remaining(dimension) - amount) as u64))
        } else {
            Err(VMError::AbortError { reason: AbortReason::OutOfGas { dimension } })
        }
    }

    /// The tracker holding the budget of each dimension.
    pub open spec fn of_budget(budget: GasBudget) -> GasTracker {
        GasTracker {
            computation: budget.computation,
            storage: budget.storage,
            rent: budget.rent,
            bandwidth: budget.bandwidth,
            proof_verification: budget.proof_verification,
            proof_generation: budget.proof_generation,
        }
    }

    /// A tracker holding the budget of each dimension.
    pub fn from_budget(budget: &GasBudget) -> (r: Self)
        ensures
            r == Self::of_budget(*budget),
            r.computation == budget.computation,
            r.storage == budget.storage,
            r.rent == budget.rent,
            r.bandwidth == budget.bandwidth,
            r.proof_verification == budget.proof_verification,
            r.proof_generation == budget.proof_generation,
    {
        GasTracker {
            computation: budget.computation,
            storage: budget.storage,
            rent: budget.rent,
            bandwidth: budget.bandwidth,
            proof_verification: budget.proof_verification,
            proof_generation: budget.proof_generation,
        }
    }

    /// A tracker with zero remaining in every dimension.
    pub fn empty() -> (r: Self)
        ensures
            forall|d: GasDimension| #[trigger] r.spec_remaining(d) == 0,
    {
        GasTracker {
            computation: 0,
            storage: 0,
            rent: 0,
            bandwidth: 0,
            proof_verification: 0,
            proof_generation: 0,
        }
    }

    /// The remaining budget of `dimension`.
    pub fn remaining(&self, dimension: GasDimension) -> (r: u64)
        ensures
            r == self.spec_remaining(dimension),
    {
        match dimension {
            GasDimension::Computation => self.computation,
            GasDimension::Storage => self.storage,
            GasDimension::Rent => self.rent,
            GasDimension::Bandwidth => self.bandwidth,
            GasDimension::ProofVerification => self.proof_verification,
            GasDimension::ProofGeneration => self.proof_generation,
        }
    }

    /// Charges `amount` against `dimension`.  On exhaustion the
    /// tracker is unchanged and the out-of-gas abort names the
    /// dimension.
    pub fn charge(&mut self, dimension: GasDimension, amount: u64) -> (r: Result<(), VMError>)
        ensures
            match old(self).spec_charge(dimension, amount) {
                Ok(t) => r is Ok && *final(self) == t,
                Err(e) => r == Err::<(), VMError>(e) && *final(self) == *old(self),
            },
    {
        let remaining = self.remaining_mut(dimension);
        match remaining.checked_sub(amount) {
            Some(after) => {
                *remaining = after;
                Ok(())
            },
            None => Err(VMError::AbortError { reason: AbortReason::OutOfGas { dimension } }),
        }
    }

    /// The counter of `dimension`, to update in place.
    fn remaining_mut(&mut self, dimension: GasDimension) -> (r: &mut u64)
        ensures
            *r == old(self).spec_remaining(dimension),
            *final(self) == old(self).with_remaining(dimension, *final(r)),
    {
        match dimension {
            GasDimension::Computation => &mut self.computation,
            GasDimension::Storage => &mut self.storage,
            GasDimension::Rent => &mut self.rent,
            GasDimension::Bandwidth => &mut self.bandwidth,
            GasDimension::ProofVerification => &mut self.proof_verification,
            GasDimension::ProofGeneration => &mut self.proof_generation,
        }
    }
}

/// A charge draws only on its own dimension: every other dimension
/// keeps its remaining budget, whether the charge succeeds or not.
pub proof fn lemma_charge_isolates_dimension(t: GasTracker, d: GasDimension, amount: u64, other: GasDimension)
    requires
        other != d,
    ensures
        t.spec_charge(d, amount) matches Ok(t2) ==> t2.spec_remaining(other) == t.spec_remaining(other),
{
}

/// A charge succeeds exactly when the amount is within the
/// dimension's remaining budget, and then leaves the remaining
/// budget reduced by the amount.
pub proof fn lemma_charge_exact(t: GasTracker, d: GasDimension, amount: u64)
    ensures
        t.spec_charge(d, amount) is Ok <==> amount <= t.spec_remaining(d),
        t.spec_charge(d, amount) matches Ok(t2) ==> t2.spec_remaining(d) == t.spec_remaining(d) - amount,
{
}

/// Charging zero never aborts and changes nothing.
pub proof fn lemma_charge_zero_is_no_op(t: GasTracker, d: GasDimension)
    ensures
        t.spec_charge(d, 0) == Ok::<GasTracker, VMError>(t),
{
}

/// Two successive charges against one dimension have the effect of
/// one charge of their sum, and both succeed exactly when the sum
/// fits the remaining budget.
pub proof fn lemma_charges_compose(t: GasTracker, d: GasDimension, a: u64, b: u64)
    requires
        a + b <= u64::MAX,
    ensures
        (t.spec_charge(d, a) matches Ok(t1) && t1.spec_charge(d, b) is Ok) <==> t.spec_charge(
            d,
            (a + b) as u64,
        ) is Ok,
        t.spec_charge(d, a) matches Ok(t1) ==> t1.spec_charge(d, b) == t.spec_charge(d, (a + b) as u64),
{
}

/// A tracker built from a budget has each dimension's budget as its
/// remaining budget.
pub proof fn lemma_from_budget_remaining(budget: GasBudget, t: GasTracker, d: GasDimension)
    requires
        t.computation == budget.computation,
        t.storage == budget.storage,
        t.rent == budget.rent,
        t.bandwidth == budget.bandwidth,
        t.proof_verification == budget.proof_verification,
        t.proof_generation == budget.proof_generation,
    ensures
        t.spec_remaining(d) == match d {
            GasDimension::Computation => budget.computation,
            GasDimension::Storage => budget.storage,
            GasDimension::Rent => budget.rent,
            GasDimension::Bandwidth => budget.bandwidth,
            GasDimension::ProofVerification => budget.proof_verification,
            GasDimension::ProofGeneration => budget.proof_generation,
        },
{
}

} // verus!
