//! What other parts of the node are told about the chain, and the interface
//! of the pool of blocks whose parents are not known yet.

use vstd::prelude::*;
use crate::primitives::{BlockHeight, BlockId, Time};

verus! {

/// The state of the chain at a glance.
#[derive(Debug, Clone, Copy, PartialEq, Eq)]
pub struct ChainInfo {
    pub best_block_height: BlockHeight,
    pub best_block_id: BlockId,
    pub best_block_timestamp: Time,
    pub median_time: Time,
    pub is_initial_block_download: bool,
}

/// A block together with its id and the id of its parent.
#[derive(Debug, Clone, PartialEq, Eq)]
pub struct BlockWithId {
    pub id: BlockId,
    pub prev_block_id: BlockId,
    pub body: Vec<u8>,
}

/// Why a block was not taken into the pool of orphans.
#[derive(Debug, Clone, Copy, PartialEq, Eq)]
pub enum OrphanAddError {
    BlockAlreadyInOrphanList(BlockId),
}

/// Read access to the pool of orphans.
pub trait OrphanBlocksRef {
    /// Number of blocks in the pool.
    fn len(&self) -> usize;

    /// Whether the pool holds the block.
    fn is_already_an_orphan(&self, block_id: &BlockId) -> bool;
}

/// Write access to the pool of orphans.
pub trait OrphanBlocksMut: OrphanBlocksRef {
    /// Empties the pool.
    fn clear(&mut self);

    /// Takes a block into the pool, unless the pool holds it already.
    fn add_block(&mut self, block: BlockWithId) -> Result<(), OrphanAddError>;

    /// Takes out of the pool all blocks that descend from the given block.
    fn take_all_children_of(&mut self, block_id: &BlockId) -> Vec<BlockWithId>;
}

/// A block by its id and height.
#[derive(Debug, Clone, Copy, PartialEq, Eq)]
pub struct BlockInfo {
    pub id: BlockId,
    pub height: BlockHeight,
}

/// A block that this node produced.
#[derive(Debug, Clone, PartialEq, Eq)]
pub struct CreatedBlockInfo {
    pub id: BlockId,
    pub height: BlockHeight,
    pub pool_id: String,
}

impl BlockInfo {
    pub fn from_tuple(pair: (BlockId, BlockHeight)) -> (info: Self)
        ensures
            info.id == pair.0,
            info.height == pair.1,
    {
        let (id, height) = pair;
        Self { id, height }
    }
}

} // verus!
