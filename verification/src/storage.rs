//! What validation asks of the chain storage.

use crate::blocks::BlockHeader;
use crate::blocks::TransactionKernel;
use crate::blocks::TransactionOutput;
use crate::error::ChainStorageError;
use vstd::prelude::*;

verus! {

/// A store of headers and of the current output and kernel sets.
///
/// Nothing is assumed of what an implementation answers: any call may fail,
/// and `fetch_headers` may answer with fewer or more headers than were asked
/// for, in any order. Validation is proved for every answer.
pub trait BlockchainBackend {
    /// The header at the tip of the chain.
    fn fetch_tip_header(&self) -> Result<BlockHeader, ChainStorageError>;

    /// The headers at the given heights.
    fn fetch_headers(&self, block_nums: Vec<u64>) -> Result<Vec<BlockHeader>, ChainStorageError>;

    /// All unspent outputs.
    fn fetch_all_utxos(&self) -> Result<Vec<TransactionOutput>, ChainStorageError>;

    /// All kernels.
    fn fetch_all_kernels(&self) -> Result<Vec<TransactionKernel>, ChainStorageError>;
}

} // verus!
