//! The consensus rules that validation reads.

use crate::blocks::BlockHeader;
use crate::blocks::PowAlgorithm;
use crate::blocks::bytes_equal;
use crate::error::DifficultyAdjustmentError;
use vstd::prelude::*;

verus! {

/// The constants of a chain.
#[derive(Debug, Clone, Copy)]
pub struct ConsensusConstants {
    /// How many headers of one algorithm the difficulty is derived from.
    pub difficulty_block_window: u64,
    /// The time between blocks that the difficulty aims at, in seconds.
    pub diff_target_block_interval: u64,
    /// The longest time between blocks that retargeting takes into account, in seconds.
    pub difficulty_max_block_interval: u64,
    /// The lowest difficulty of a header mined with Monero's algorithm.
    pub min_pow_difficulty_monero: u64,
    /// The lowest difficulty of a header mined with Blake.
    pub min_pow_difficulty_blake: u64,
    /// How many preceding timestamps the median is taken of.
    pub median_timestamp_count: usize,
}

impl ConsensusConstants {
    /// How many headers of one algorithm the difficulty is derived from.
    pub fn get_difficulty_block_window(&self) -> (r: u64)
        ensures
            r == self.difficulty_block_window,
    {
        self.difficulty_block_window
    }

    /// The time between blocks that the difficulty aims at, in seconds.
    pub fn get_diff_target_block_interval(&self) -> (r: u64)
        ensures
            r == self.diff_target_block_interval,
    {
        self.diff_target_block_interval
    }

    /// The longest time between blocks that retargeting takes into account.
    pub fn get_difficulty_max_block_interval(&self) -> (r: u64)
        ensures
            r == self.difficulty_max_block_interval,
    {
        self.difficulty_max_block_interval
    }

    /// How many preceding timestamps the median is taken of.
    pub fn get_median_timestamp_count(&self) -> (r: usize)
        ensures
            r == self.median_timestamp_count,
    {
        self.median_timestamp_count
    }

    /// The lowest difficulty of a header mined with `pow_algo`.
    pub open spec fn spec_min_pow_difficulty(&self, pow_algo: PowAlgorithm) -> u64 {
        match pow_algo {
            PowAlgorithm::Monero => self.min_pow_difficulty_monero,
            PowAlgorithm::Blake => self.min_pow_difficulty_blake,
        }
    }

    /// The lowest difficulty of a header mined with `pow_algo`.
    pub fn min_pow_difficulty(&self, pow_algo: PowAlgorithm) -> (r: u64)
        ensures
            r == self.spec_min_pow_difficulty(pow_algo),
    {
        match pow_algo {
            PowAlgorithm::Monero => self.min_pow_difficulty_monero,
            PowAlgorithm::Blake => self.min_pow_difficulty_blake,
        }
    }
}

/// The timestamps and target difficulties of a run of headers, as retargeting sees them.
pub type Samples = Seq<(u64, u64)>;

/// The functions that a chain defines and that validation applies without
/// looking into them: the emission schedule and the difficulty retargeting.
///
/// Both are functions of their arguments alone. An implementation says which
/// functions they are by `spec_supply_at_block` and
/// `spec_get_target_difficulty`, and owes that its two methods return what
/// these say; nothing more is assumed of it. In an implementation that is
/// not verified the two are ordinary methods that nothing calls.
pub trait ConsensusFunctions {
    /// The supply that the schedule gives for `height`.
    spec fn spec_supply_at_block(&self, height: u64) -> u64;

    /// What the retargeting gives for the samples and the constants.
    spec fn spec_get_target_difficulty(
        &self,
        target_difficulties: Samples,
        block_window: u64,
        target_time: u64,
        min_difficulty: u64,
        max_block_time: u64,
    ) -> Result<u64, DifficultyAdjustmentError>;

    /// All coins that have been emitted up to and including `height`.
    fn supply_at_block(&self, height: u64) -> (r: u64)
        ensures
            r == self.spec_supply_at_block(height),
    ;

    /// The target difficulty that follows from `target_difficulties`, the
    /// timestamps and target difficulties of the most recent headers of one
    /// algorithm, oldest first.
    fn get_target_difficulty(
        &self,
        target_difficulties: Vec<(u64, u64)>,
        block_window: u64,
        target_time: u64,
        min_difficulty: u64,
        max_block_time: u64,
    ) -> (r: Result<u64, DifficultyAdjustmentError>)
        ensures
            r == self.spec_get_target_difficulty(
                target_difficulties@,
                block_window,
                target_time,
                min_difficulty,
                max_block_time,
            ),
    ;
}

/// The rules of one chain: its constants, the hash of its genesis header and
/// its functions.
pub struct ConsensusManager<F> {
    pub constants: ConsensusConstants,
    pub genesis_block_hash: Vec<u8>,
    pub functions: F,
}

impl<F: ConsensusFunctions> ConsensusManager<F> {
    /// The constants of the chain.
    pub fn consensus_constants(&self) -> (r: &ConsensusConstants)
        ensures
            *r == self.constants,
    {
        &self.constants
    }

    /// The hash of the chain's genesis header.
    pub fn get_genesis_block_hash(&self) -> (r: &Vec<u8>)
        ensures
            *r == self.genesis_block_hash,
    {
        &self.genesis_block_hash
    }

    /// The emission schedule of the chain.
    pub fn emission_schedule(&self) -> (r: &F)
        ensures
            *r == self.functions,
    {
        &self.functions
    }

    /// The difficulty retargeting of the chain.
    pub fn difficulty_adjustment(&self) -> (r: &F)
        ensures
            *r == self.functions,
    {
        &self.functions
    }

    /// Whether `header` is this chain's genesis header: it stands at height 0
    /// and has the genesis hash.
    pub open spec fn spec_is_genesis(&self, header: &BlockHeader) -> bool {
        header.height == 0 && self.genesis_block_hash@ == header.hash@
    }

    /// Whether `header` is this chain's genesis header.
    pub fn is_genesis(&self, header: &BlockHeader) -> (r: bool)
        ensures
            r == self.spec_is_genesis(header),
    {
        header.height == 0 && bytes_equal(&self.genesis_block_hash, header.hash())
    }
}

} // verus!
