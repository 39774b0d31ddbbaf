//! Preimages of pool and delegation identifiers.
//!
//! An identifier is the hash of the encoded outpoint of the first input of the
//! creating transaction, followed by a four-byte suffix that tells the two
//! kinds of identifier apart.  Hashing itself is left to the caller; this
//! module fixes the bytes that are hashed.

use vstd::prelude::*;
use vstd::bytes::*;
use crate::primitives::{Amount, H256};

verus! {

/// Suffix that is hashed after the outpoint to obtain a pool id.
pub open spec fn spec_pool_id_preimage_suffix() -> u32 {
    0
}

/// Suffix that is hashed after the outpoint to obtain a delegation id.
pub open spec fn spec_delegation_id_preimage_suffix() -> u32 {
    1
}

/// The suffix is arbitrary: it only makes the two preimages differ.
#[verifier::when_used_as_spec(spec_pool_id_preimage_suffix)]
pub fn pool_id_preimage_suffix() -> (suffix: u32)
    ensures
        suffix == spec_pool_id_preimage_suffix(),
{
    0
}

/// The suffix is arbitrary: it only makes the two preimages differ.
#[verifier::when_used_as_spec(spec_delegation_id_preimage_suffix)]
pub fn delegation_id_preimage_suffix() -> (suffix: u32)
    ensures
        suffix == spec_delegation_id_preimage_suffix(),
{
    1
}

/// Where an output was created.
#[derive(Debug, Clone, Copy, PartialEq, Eq)]
pub enum OutPointSourceId {
    /// In the transaction with the given id.
    Transaction(H256),
    /// In the reward of the block with the given id.
    BlockReward(H256),
}

/// An output of a transaction or of a block reward.
#[derive(Debug, Clone, Copy, PartialEq, Eq)]
pub struct UtxoOutPoint {
    pub source_id: OutPointSourceId,
    pub index: u32,
}

impl UtxoOutPoint {
    /// The encoding of the outpoint: one byte for the kind of its source, the
    /// 32 bytes of the source's id, and the index, least significant byte
    /// first.
    pub open spec fn encoding(&self) -> Seq<u8> {
        (match self.source_id {
            OutPointSourceId::Transaction(id) => seq![0u8] + id.bytes@,
            OutPointSourceId::BlockReward(id) => seq![1u8] + id.bytes@,
        }) + spec_u32_to_le_bytes(self.index)
    }

    /// Encodes the outpoint.
    pub fn encode(&self) -> (bytes: Vec<u8>)
        ensures
            bytes@ == self.encoding(),
    {
        let mut bytes: Vec<u8> = Vec::new();
        let mut id = match self.source_id {
            OutPointSourceId::Transaction(id) => {
                bytes.push(0u8);
                id.to_bytes()
            },
            OutPointSourceId::BlockReward(id) => {
                bytes.push(1u8);
                id.to_bytes()
            },
        };
        bytes.append(&mut id);
        let mut index = u32_to_le_bytes(self.index);
        bytes.append(&mut index);
        bytes
    }
}

/// The bytes whose hash is the id of the pool that is created by spending
/// `input0_outpoint`.
pub open spec fn pool_id_preimage(input0_outpoint: UtxoOutPoint) -> Seq<u8> {
    input0_outpoint.encoding() + spec_u32_to_le_bytes(spec_pool_id_preimage_suffix())
}

/// The bytes whose hash is the id of the delegation that is created by
/// spending `input0_outpoint`.
pub open spec fn delegation_id_preimage(input0_outpoint: UtxoOutPoint) -> Seq<u8> {
    input0_outpoint.encoding() + spec_u32_to_le_bytes(spec_delegation_id_preimage_suffix())
}

/// The bytes that are hashed to make a pool id.
pub fn make_pool_id_preimage(input0_outpoint: &UtxoOutPoint) -> (preimage: Vec<u8>)
    ensures
        preimage@ == pool_id_preimage(*input0_outpoint),
{
    let mut preimage = input0_outpoint.encode();
    let mut suffix = u32_to_le_bytes(pool_id_preimage_suffix());
    preimage.append(&mut suffix);
    preimage
}

/// The bytes that are hashed to make a delegation id.
pub fn make_delegation_id_preimage(input0_outpoint: &UtxoOutPoint) -> (preimage: Vec<u8>)
    ensures
        preimage@ == delegation_id_preimage(*input0_outpoint),
{
    let mut preimage = input0_outpoint.encode();
    let mut suffix = u32_to_le_bytes(delegation_id_preimage_suffix());
    preimage.append(&mut suffix);
    preimage
}

/// The preimages of the pool id and of the delegation id of one outpoint
/// differ, so that the two ids are hashes of different bytes.
pub proof fn lemma_preimages_differ(input0_outpoint: UtxoOutPoint)
    ensures
        pool_id_preimage(input0_outpoint) != delegation_id_preimage(input0_outpoint),
{
    lemma_auto_spec_u32_to_from_le_bytes();
    let head = input0_outpoint.encoding();
    let pool = pool_id_preimage(input0_outpoint);
    let delegation = delegation_id_preimage(input0_outpoint);
    if pool == delegation {
        assert(pool.subrange(head.len() as int, pool.len() as int) =~= spec_u32_to_le_bytes(0));
        assert(delegation.subrange(head.len() as int, delegation.len() as int) =~= spec_u32_to_le_bytes(1));
        assert(spec_u32_from_le_bytes(spec_u32_to_le_bytes(0)) == 0);
        assert(spec_u32_from_le_bytes(spec_u32_to_le_bytes(1)) == 1);
    }
}

/// How a delegation of coins to a pool is undone.
#[derive(Debug, Clone, Copy, PartialEq, Eq)]
pub struct DelegateStakingUndo {
    pub delegation_target: H256,
    pub amount_to_delegate: Amount,
}

/// How an operation on the accounting of pools is undone.
#[derive(Debug, Clone, Copy, PartialEq, Eq)]
pub enum PoSAccountingUndo {
    DelegateStaking(DelegateStakingUndo),
}

/// The largest amount, in atoms, of an undo that is made up for a test, and
/// one more.
pub open spec fn test_undo_amount_limit() -> u128 {
    100_000
}

/// An undo for use in tests, made from a hash and a number that the caller
/// has drawn at random.  The number stands for the amount; it is reduced to
/// an amount below the limit for test undos.
pub fn undo_for_test(drawn_target: H256, drawn_amount: u128) -> (undo: PoSAccountingUndo)
    ensures
        undo == PoSAccountingUndo::DelegateStaking(
            DelegateStakingUndo {
                delegation_target: drawn_target,
                amount_to_delegate: Amount { atoms: drawn_amount % test_undo_amount_limit() },
            },
        ),
{
    PoSAccountingUndo::DelegateStaking(
        DelegateStakingUndo {
            delegation_target: drawn_target,
            amount_to_delegate: Amount::from_atoms(drawn_amount % 100_000),
        },
    )
}

} // verus!
