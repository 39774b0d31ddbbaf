//! What the chainstate records for each epoch of proof-of-stake.

use vstd::prelude::*;
use crate::primitives::{DecodeError, H256};

verus! {

/// The randomness from which the stakers of an epoch are drawn.
#[derive(Debug, Clone, Copy, PartialEq, Eq)]
pub struct PoSRandomness {
    value: H256,
}

impl PoSRandomness {
    pub closed spec fn spec_value(&self) -> H256 {
        self.value
    }

    pub fn new(value: H256) -> (randomness: Self)
        ensures
            randomness.spec_value() == value,
    {
        PoSRandomness { value }
    }

    #[verifier::when_used_as_spec(spec_value)]
    pub fn value(&self) -> (value: H256)
        ensures
            value == self.spec_value(),
    {
        self.value
    }
}

/// The data of one epoch.
#[derive(Debug, Clone, Copy, PartialEq, Eq)]
pub struct EpochData {
    randomness: PoSRandomness,
}

impl EpochData {
    pub closed spec fn spec_randomness(&self) -> &PoSRandomness {
        &self.randomness
    }

    /// The stored form of the data: the 32 bytes of the randomness.
    pub open spec fn encoding(&self) -> Seq<u8> {
        self.spec_randomness().spec_value().bytes@
    }

    pub fn new(randomness: PoSRandomness) -> (data: Self)
        ensures
            *data.spec_randomness() == randomness,
    {
        Self { randomness }
    }

    #[verifier::when_used_as_spec(spec_randomness)]
    pub fn randomness(&self) -> (randomness: &PoSRandomness)
        ensures
            randomness == self.spec_randomness(),
    {
        &self.randomness
    }

    /// Serializes the data.
    pub fn encode(&self) -> (bytes: Vec<u8>)
        ensures
            bytes@ == self.encoding(),
    {
        self.randomness.value.to_bytes()
    }

    /// Reads the data from its stored form, which must have exactly 32 bytes.
    pub fn decode(bytes: &[u8]) -> (result: Result<EpochData, DecodeError>)
        ensures
            match result {
                Ok(data) => bytes@.len() == 32 && data.encoding() == bytes@,
                Err(err) => bytes@.len() != 32 && err == (DecodeError::WrongLength {
                    expected: 32,
                    actual: bytes@.len() as usize,
                }),
            },
    {
        match H256::from_bytes(bytes) {
            Some(value) => Ok(EpochData { randomness: PoSRandomness { value } }),
            None => Err(DecodeError::WrongLength { expected: 32, actual: bytes.len() }),
        }
    }
}

/// Two epoch data with the same stored form are equal, so decoding what was
/// encoded gives the data back.
pub proof fn lemma_epoch_data_encoding_is_injective(a: EpochData, b: EpochData)
    requires
        a.encoding() == b.encoding(),
    ensures
        a == b,
{
    assert(a.spec_randomness().spec_value().bytes@ =~= b.spec_randomness().spec_value().bytes@);
    assert(a.spec_randomness().spec_value().bytes == b.spec_randomness().spec_value().bytes);
}

} // verus!
