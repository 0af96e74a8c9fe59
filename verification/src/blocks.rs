//! The parts of headers, outputs and kernels that horizon validation reads.

use crate::crypto::BlindingFactor;
use crate::crypto::Commitment;
use vstd::prelude::*;

verus! {

/// The proof-of-work algorithms that a header may use.
#[derive(Debug, Clone, Copy, PartialEq, Eq, Structural)]
pub enum PowAlgorithm {
    Monero,
    Blake,
}

/// The lowest difficulty there is.
pub const MIN_DIFFICULTY: u64 = 1;

/// The proof-of-work record of a header.
#[derive(Debug, Clone, Copy)]
pub struct ProofOfWork {
    /// The algorithm that the header was mined with.
    pub pow_algo: PowAlgorithm,
    /// The target difficulty that the header claims.
    pub target_difficulty: u64,
    /// The difficulty that the header's content achieves.
    pub achieved_difficulty: u64,
}

/// A block header.
#[derive(Debug, Clone)]
pub struct BlockHeader {
    /// The header's position in the chain; the genesis header is at 0.
    pub height: u64,
    /// Seconds since the epoch.
    pub timestamp: u64,
    pub pow: ProofOfWork,
    /// The blinding factor that this block adds to the chain's balance.
    pub total_kernel_offset: BlindingFactor,
    /// The hash of the header's content.
    pub hash: Vec<u8>,
}

impl BlockHeader {
    /// The difficulty that the header's content achieves.
    pub fn achieved_difficulty(&self) -> (d: u64)
        ensures
            d == self.pow.achieved_difficulty,
    {
        self.pow.achieved_difficulty
    }

    /// The hash of the header's content.
    pub fn hash(&self) -> (h: &Vec<u8>)
        ensures
            h == self.hash,
    {
        &self.hash
    }
}

/// An unspent transaction output.
#[derive(Debug, Clone, Copy)]
pub struct TransactionOutput {
    pub commitment: Commitment,
}

/// A transaction kernel.
#[derive(Debug, Clone, Copy)]
pub struct TransactionKernel {
    /// The commitment to the kernel's excess.
    pub excess: Commitment,
}

/// The timestamps of a sequence of headers, in the same order.
pub open spec fn timestamps_of(headers: Seq<BlockHeader>) -> Seq<u64> {
    Seq::new(headers.len(), |i: int| headers[i].timestamp)
}

/// Whether two byte vectors hold the same bytes.
pub fn bytes_equal(a: &Vec<u8>, b: &Vec<u8>) -> (r: bool)
    ensures
        r == (a@ == b@),
{
    if a.len() != b.len() {
        return false;
    }
    let n = a.len();
    let mut i: usize = 0;
    while i < n
        invariant
            n == a.len(),
            n == b.len(),
            i <= n,
            forall|j: int| 0 <= j < i ==> a@[j] == b@[j],
        decreases n - i,
    {
        if a[i] != b[i] {
            return false;
        }
        i += 1;
    }
    assert(a@ =~= b@);
    true
}

} // verus!
