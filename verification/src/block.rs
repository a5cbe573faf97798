use vstd::prelude::*;

use crate::fee::FeeDetails;

verus! {

/// A 256-bit block hash, carried through processing unchanged.
#[derive(Clone, Copy, Debug, PartialEq, Eq)]
pub struct H256 {
    pub bytes: [u8; 32],
}

/// Why a single fee lookup failed. The caller that performed the
/// lookup reports the message and drops the transaction; the failure
/// never spreads to other transactions or to the block.
#[derive(Clone, Debug, PartialEq, Eq)]
pub struct LookupError {
    pub message: String,
}

/// One transaction whose fee lookup succeeded: the raw transaction
/// bytes paired with the fee breakdown resolved for them.
#[derive(Clone, Debug, PartialEq, Eq)]
pub struct Extrinsic {
    pub body: Vec<u8>,
    pub fee_details: FeeDetails,
}

/// One fully processed block: the wall-clock time of processing in
/// milliseconds, the block's hash, and the transactions whose fee
/// lookup succeeded, in the block's own order.
#[derive(Clone, Debug, PartialEq, Eq)]
pub struct Block {
    pub timestamp: u128,
    pub block_hash: H256,
    pub extrinsics: Vec<Extrinsic>,
}

/// Assembles one `Block` from a stream of per-transaction lookup
/// outcomes. A successful lookup appends its transaction, a failed
/// one is skipped, and neither outcome touches the transactions
/// already recorded or the block's identity: one block comes out of
/// every block that goes in, however many lookups failed.
pub struct BlockBuilder {
    pub timestamp: u128,
    pub block_hash: H256,
    pub extrinsics: Vec<Extrinsic>,
}

impl BlockBuilder {
    /// Start a block: the given processing timestamp and hash, and no
    /// transactions yet.
    pub fn new(timestamp: u128, block_hash: H256) -> (b: Self)
        ensures
            b.timestamp == timestamp,
            b.block_hash == block_hash,
            b.extrinsics@ == Seq::<Extrinsic>::empty(),
    {
        BlockBuilder { timestamp, block_hash, extrinsics: Vec::new() }
    }

    /// Record the outcome of one fee lookup, in source order: on
    /// success the transaction joins the block, on failure it is
    /// skipped, and earlier transactions are kept as they were.
    pub fn record_lookup(&mut self, body: Vec<u8>, looked_up: Result<FeeDetails, LookupError>)
        ensures
            final(self).timestamp == old(self).timestamp,
            final(self).block_hash == old(self).block_hash,
            (match looked_up {
                Ok(fee_details) => final(self).extrinsics@
                    == old(self).extrinsics@.push((Extrinsic { body: body, fee_details: fee_details })),
                Err(_) => final(self).extrinsics@ == old(self).extrinsics@,
            }),
    {
        match looked_up {
            Ok(fee_details) => self.extrinsics.push(Extrinsic { body, fee_details }),
            Err(_) => {}
        }
    }

    /// Finish the block with whatever was recorded, even nothing.
    pub fn finish(self) -> (b: Block)
        ensures
            b.timestamp == self.timestamp,
            b.block_hash == self.block_hash,
            b.extrinsics@ == self.extrinsics@,
    {
        Block {
            timestamp: self.timestamp,
            block_hash: self.block_hash,
            extrinsics: self.extrinsics,
        }
    }
}

/// The ordered record of every block processed during one run:
/// blocks are appended in arrival order and read once, at shutdown,
/// by sample extraction.
pub struct RunAccumulator {
    pub blocks: Vec<Block>,
}

impl RunAccumulator {
    /// An empty run.
    pub fn new() -> (a: Self)
        ensures
            a.blocks@ == Seq::<Block>::empty(),
    {
        RunAccumulator { blocks: Vec::new() }
    }

    /// Append one processed block; every block recorded earlier stays
    /// where it was.
    pub fn record_block(&mut self, block: Block)
        ensures
            final(self).blocks@ == old(self).blocks@.push(block),
    {
        self.blocks.push(block);
    }
}

} // verus!
