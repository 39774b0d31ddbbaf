//! The fee rate of a transaction: what it pays for every thousand bytes.

use vstd::prelude::*;
use crate::primitives::Amount;

verus! {

/// Number of bytes that a fee rate speaks of.
pub open spec fn bytes_per_unit() -> u128 {
    1000
}

/// The fee of a transaction.
#[derive(Debug, Clone, Copy, PartialEq, Eq, PartialOrd, Ord, Structural)]
pub struct Fee {
    pub amount: Amount,
}

impl Fee {
    pub fn new(amount: Amount) -> (fee: Self)
        ensures
            fee.amount == amount,
    {
        Fee { amount }
    }
}

/// A rule of the mempool was broken.
#[derive(Debug, Clone, Copy, PartialEq, Eq, Structural)]
pub enum MempoolPolicyError {
    /// A fee is too large to be told.
    FeeOverflow,
}

/// A fee rate: atoms per thousand bytes.
#[derive(Debug, Clone, Copy, PartialEq, Eq, PartialOrd, Ord, Structural)]
pub struct FeeRate {
    amount_per_kb: Amount,
}

impl FeeRate {
    /// The rate in atoms per thousand bytes.
    pub closed spec fn spec_atoms_per_kb(&self) -> u128 {
        self.amount_per_kb.atoms
    }

    /// The rate of a transaction of `tx_size` bytes that pays
    /// `total_tx_fee`: the fee for a thousand bytes, rounded down.  The rate
    /// cannot be told if a thousand times the fee cannot.
    pub open spec fn rate_of(total_tx_fee: Fee, tx_size: usize) -> Option<u128> {
        if total_tx_fee.amount.atoms * bytes_per_unit() > u128::MAX {
            None
        } else {
            Some(((total_tx_fee.amount.atoms * bytes_per_unit()) / tx_size as int) as u128)
        }
    }

    /// The fee of `size` bytes at a rate of `atoms_per_kb`: rounded up to
    /// whole atoms.  The fee cannot be told if the rate times the size, with
    /// room for rounding, cannot.
    pub open spec fn fee_of(atoms_per_kb: u128, size: usize) -> Option<u128> {
        if atoms_per_kb * size + (bytes_per_unit() - 1) > u128::MAX {
            None
        } else {
            Some(((atoms_per_kb * size + (bytes_per_unit() - 1)) / bytes_per_unit() as int) as u128)
        }
    }

    pub fn from_atoms_per_kb(atoms_per_kb: u128) -> (rate: Self)
        ensures
            rate.spec_atoms_per_kb() == atoms_per_kb,
    {
        Self::from_amount_per_kb(Amount::from_atoms(atoms_per_kb))
    }

    pub fn from_amount_per_kb(amount_per_kb: Amount) -> (rate: Self)
        ensures
            rate.spec_atoms_per_kb() == amount_per_kb.atoms,
    {
        Self { amount_per_kb }
    }

    /// The rate of a transaction of `tx_size` bytes that pays `total_tx_fee`.
    pub fn from_total_tx_fee(total_tx_fee: Fee, tx_size: usize) -> (result: Result<Self, MempoolPolicyError>)
        requires
            tx_size != 0,
        ensures
            match result {
                Ok(rate) => Self::rate_of(total_tx_fee, tx_size) == Some(rate.spec_atoms_per_kb()),
                Err(err) => Self::rate_of(total_tx_fee, tx_size).is_none() && err == MempoolPolicyError::FeeOverflow,
            },
    {
        let tx_size = tx_size as u128;
        let scaled_fee = match total_tx_fee.amount.checked_mul(1000) {
            Some(scaled) => scaled,
            None => {
                return Err(MempoolPolicyError::FeeOverflow);
            },
        };
        match scaled_fee.checked_div(tx_size) {
            Some(amount_per_kb) => Ok(Self { amount_per_kb }),
            None => Err(MempoolPolicyError::FeeOverflow),
        }
    }

    /// The fee of `size` bytes at this rate.
    pub fn compute_fee(&self, size: usize) -> (result: Result<Fee, MempoolPolicyError>)
        ensures
            match result {
                Ok(fee) => Self::fee_of(self.spec_atoms_per_kb(), size) == Some(fee.amount.atoms),
                Err(err) => Self::fee_of(self.spec_atoms_per_kb(), size).is_none() && err
                    == MempoolPolicyError::FeeOverflow,
            },
    {
        let size = size as u128;
        let fee = match self.amount_per_kb.checked_mul(size) {
            Some(fee) => fee,
            None => {
                assert(self.amount_per_kb.atoms * size + 999 > u128::MAX);
                return Err(MempoolPolicyError::FeeOverflow);
            },
        };
        // 999 more, so that the division rounds up
        let ceil_add = Amount::from_atoms(999);
        let padded = match fee.checked_add(ceil_add) {
            Some(padded) => padded,
            None => {
                return Err(MempoolPolicyError::FeeOverflow);
            },
        };
        match padded.checked_div(1000) {
            Some(fee) => Ok(Fee { amount: fee }),
            None => Err(MempoolPolicyError::FeeOverflow),
        }
    }

    #[verifier::when_used_as_spec(spec_atoms_per_kb)]
    pub fn atoms_per_kb(&self) -> (atoms: u128)
        ensures
            atoms == self.spec_atoms_per_kb(),
    {
        self.amount_per_kb.into_atoms()
    }

    /// The sum of two rates, if it can be told.
    pub fn add(self, other: Self) -> (sum: Option<Self>)
        ensures
            match sum {
                Some(rate) => rate.spec_atoms_per_kb() == self.spec_atoms_per_kb() + other.spec_atoms_per_kb(),
                None => self.spec_atoms_per_kb() + other.spec_atoms_per_kb() > u128::MAX,
            },
    {
        match self.amount_per_kb.checked_add(other.amount_per_kb) {
            Some(amount_per_kb) => Some(FeeRate::from_amount_per_kb(amount_per_kb)),
            None => None,
        }
    }

    /// This rate split into `parts` parts, rounded down.
    pub fn div(self, parts: usize) -> (rate: Self)
        requires
            parts != 0,
        ensures
            rate.spec_atoms_per_kb() == self.spec_atoms_per_kb() / parts as u128,
    {
        FeeRate { amount_per_kb: Amount { atoms: self.amount_per_kb.atoms / (parts as u128) } }
    }
}

/// The fee that is computed for a size never falls short of the rate times
/// the size, and exceeds it by less than one atom.
pub proof fn lemma_fee_is_rounded_up(atoms_per_kb: u128, size: usize)
    requires
        FeeRate::fee_of(atoms_per_kb, size).is_some(),
    ensures
        FeeRate::fee_of(atoms_per_kb, size).unwrap() * 1000 >= atoms_per_kb * size,
        FeeRate::fee_of(atoms_per_kb, size).unwrap() * 1000 < atoms_per_kb * size + 1000,
{
    let product = atoms_per_kb * size;
    assert(product >= 0) by (nonlinear_arith)
        requires
            product == atoms_per_kb * size,
    ;
    let padded = product + 999;
    let fee = padded / 1000;
    assert(fee * 1000 <= padded && padded < fee * 1000 + 1000);
}

} // verus!
